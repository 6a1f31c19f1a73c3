//! One polling cycle: keep the quotes that succeeded, and evaluate them when
//! exactly two venues reported.

use vstd::prelude::*;

use crate::detector::{spec_evaluate, Opportunity, Quote};

verus! {

/// Why a venue produced no usable quote this cycle. Recoverable: the venue is
/// skipped for the cycle and retried naturally on the next one.
#[derive(Clone, Copy, Debug, PartialEq, Eq, Structural)]
pub enum FetchError {
    /// The RPC call itself failed (transport, timeout, revert).
    Rpc,
    /// The call succeeded but its reply could not be decoded.
    Decode,
    /// The reply decoded to an amount too large to normalize.
    Overflow,
}

/// The quotes of the fetches that succeeded, in their original order.
pub open spec fn ok_quotes(results: Seq<Result<Quote, FetchError>>) -> Seq<Quote>
    decreases results.len(),
{
    if results.len() == 0 {
        Seq::empty()
    } else {
        ok_quotes(results.drop_last()) + if results.last() is Ok {
            seq![results.last()->Ok_0]
        } else {
            Seq::empty()
        }
    }
}

/// What one cycle yields: an evaluation of the successful quotes when exactly
/// two venues reported, and nothing otherwise.
pub open spec fn spec_cycle(
    results: Seq<Result<Quote, FetchError>>,
    cost: u64,
    threshold: u64,
) -> Option<Opportunity> {
    spec_evaluate(ok_quotes(results), cost, threshold)
}

/// Evaluate one polling cycle.
///
/// Failed fetches are dropped; when exactly two quotes remain they are
/// evaluated in both directions, and otherwise the cycle yields nothing.
/// In particular fewer than two successful quotes never yield an opportunity.
pub fn run_cycle(results: &Vec<Result<Quote, FetchError>>, cost: u64, threshold: u64) -> (r: Option<
    Opportunity,
>)
    ensures
        r == spec_cycle(results@, cost, threshold),
        ok_quotes(results@).len() < 2 ==> r is None,
{
    let mut quotes: Vec<Quote> = Vec::new();
    let mut i: usize = 0;
    while i < results.len()
        invariant
            i <= results.len(),
            quotes@ == ok_quotes(results@.take(i as int)),
        decreases results.len() - i,
    {
        proof {
            assert(results@.take(i + 1).drop_last() == results@.take(i as int));
            assert(results@.take(i + 1).last() == results@[i as int]);
        }
        match results[i] {
            Ok(q) => quotes.push(q),
            Err(_) => (),
        }
        i += 1;
    }
    proof {
        assert(results@.take(results@.len() as int) == results@);
    }
    crate::detector::evaluate(&quotes, cost, threshold)
}

/// The quoted output amount of a multi-hop swap is the last hop's amount;
/// an empty reply counts as zero.
pub fn final_hop(amounts: &Vec<u128>) -> (r: u128)
    ensures
        r == if amounts@.len() == 0 {
            0u128
        } else {
            amounts@.last()
        },
{
    if amounts.len() == 0 {
        0
    } else {
        amounts[amounts.len() - 1]
    }
}

/// Normalize a raw quoted amount (smallest output-token units, which are
/// micro-units here) into this cycle's quote for `venue`.
///
/// An amount too large for the comparison arithmetic is a recoverable
/// per-venue failure, exactly like a failed fetch.
pub fn quote_from_raw(venue: u64, raw: u128) -> (r: Result<Quote, FetchError>)
    ensures
        r is Ok <==> raw <= u64::MAX,
        r is Ok ==> r->Ok_0 == (Quote { venue, price: raw as u64 }),
        r is Err ==> r->Err_0 == FetchError::Overflow,
{
    if raw <= u64::MAX as u128 {
        Ok(Quote { venue, price: raw as u64 })
    } else {
        Err(FetchError::Overflow)
    }
}

/// Raising the simulated cost or the profit threshold (or both) can only
/// turn a cycle that reported an opportunity into one that reports none,
/// never the reverse.
pub proof fn lemma_cycle_monotone(
    results: Seq<Result<Quote, FetchError>>,
    cost1: u64,
    cost2: u64,
    threshold1: u64,
    threshold2: u64,
)
    requires
        cost1 <= cost2,
        threshold1 <= threshold2,
    ensures
        spec_cycle(results, cost2, threshold2) is Some ==> spec_cycle(
            results,
            cost1,
            threshold1,
        ) is Some,
{
    if ok_quotes(results).len() == 2 {
        crate::detector::lemma_cost_threshold_monotone(
            ok_quotes(results)[0],
            ok_quotes(results)[1],
            cost1,
            cost2,
            threshold1,
            threshold2,
        );
    }
}

/// Evaluation is a pure function of the cycle's data: two evaluations of the
/// same quotes with the same constants yield the same report.
pub proof fn lemma_cycle_deterministic(
    r1: Option<Opportunity>,
    r2: Option<Opportunity>,
    results: Seq<Result<Quote, FetchError>>,
    cost: u64,
    threshold: u64,
)
    requires
        r1 == spec_cycle(results, cost, threshold),
        r2 == spec_cycle(results, cost, threshold),
    ensures
        r1 == r2,
{
}

} // verus!

use arb_monitor::cycle::{final_hop, quote_from_raw, run_cycle, FetchError};
use arb_monitor::detector::{evaluate, evaluate_pair, Opportunity, Quote};

// Prices, costs and thresholds are in micro-units (millionths).
const MICRO: u64 = 1_000_000;

fn quote(venue: u64, price: u64) -> Quote {
    Quote { venue, price }
}

#[test]
fn profitable_spread_reports_opportunity() {
    // Pa = 3000.00, Pb = 3005.00, cost = 2.00, threshold = 1.00:
    // profit = 3.00 > 1.00, so buy on A, sell on B.
    let a = quote(0, 3000 * MICRO);
    let b = quote(1, 3005 * MICRO);
    let r = evaluate_pair(a, b, 2 * MICRO, MICRO);
    assert_eq!(
        r,
        Some(Opportunity {
            buy_venue: 0,
            sell_venue: 1,
            buy_price: 3000 * MICRO,
            sell_price: 3005 * MICRO,
            profit: 3 * MICRO,
        })
    );
}

#[test]
fn thin_spread_reports_nothing() {
    // Pa = 3000.00, Pb = 3000.50, cost = 2.00, threshold = 1.00:
    // the spread does not even cover the cost.
    let a = quote(0, 3000 * MICRO);
    let b = quote(1, 3000 * MICRO + MICRO / 2);
    assert_eq!(evaluate_pair(a, b, 2 * MICRO, MICRO), None);
}

#[test]
fn equal_prices_report_nothing_either_direction() {
    let a = quote(0, 3000 * MICRO);
    let b = quote(1, 3000 * MICRO);
    assert_eq!(evaluate_pair(a, b, 0, 0), None);
    assert_eq!(evaluate_pair(b, a, 0, 0), None);
}

#[test]
fn reverse_spread_reports_mirrored_opportunity() {
    // The dearer venue first: buy on B, sell on A.
    let a = quote(7, 3010 * MICRO);
    let b = quote(8, 3000 * MICRO);
    let r = evaluate_pair(a, b, 2 * MICRO, MICRO);
    assert_eq!(
        r,
        Some(Opportunity {
            buy_venue: 8,
            sell_venue: 7,
            buy_price: 3000 * MICRO,
            sell_price: 3010 * MICRO,
            profit: 8 * MICRO,
        })
    );
}

#[test]
fn profit_equal_to_threshold_is_not_enough() {
    // profit = 3003 - 3000 - 2 = 1.00, threshold = 1.00: strict comparison.
    let a = quote(0, 3000 * MICRO);
    let b = quote(1, 3003 * MICRO);
    assert_eq!(evaluate_pair(a, b, 2 * MICRO, MICRO), None);
    // One micro-unit more clears it.
    let b2 = quote(1, 3003 * MICRO + 1);
    let r = evaluate_pair(a, b2, 2 * MICRO, MICRO);
    assert!(r.is_some());
    assert_eq!(r.unwrap().profit, MICRO + 1);
}

#[test]
fn raising_cost_removes_opportunity() {
    let a = quote(0, 3000 * MICRO);
    let b = quote(1, 3005 * MICRO);
    assert!(evaluate_pair(a, b, 2 * MICRO, MICRO).is_some());
    assert_eq!(evaluate_pair(a, b, 5 * MICRO, MICRO), None);
}

#[test]
fn raising_threshold_removes_opportunity() {
    let a = quote(0, 3000 * MICRO);
    let b = quote(1, 3005 * MICRO);
    assert!(evaluate_pair(a, b, 2 * MICRO, MICRO).is_some());
    assert_eq!(evaluate_pair(a, b, 2 * MICRO, 3 * MICRO), None);
}

#[test]
fn evaluation_is_idempotent() {
    let a = quote(0, 2999 * MICRO);
    let b = quote(1, 3005 * MICRO);
    let first = evaluate_pair(a, b, 2 * MICRO, MICRO);
    let second = evaluate_pair(a, b, 2 * MICRO, MICRO);
    assert_eq!(first, second);
    let results = vec![Ok(a), Ok(b)];
    assert_eq!(
        run_cycle(&results, 2 * MICRO, MICRO),
        run_cycle(&results, 2 * MICRO, MICRO)
    );
}

#[test]
fn failed_fetch_skips_the_cycle() {
    // One venue errors, the other quotes 3005.00: fewer than two usable
    // quotes, so the cycle yields nothing (and does not crash).
    let results = vec![Err(FetchError::Rpc), Ok(quote(1, 3005 * MICRO))];
    assert_eq!(run_cycle(&results, 2 * MICRO, MICRO), None);
}

#[test]
fn empty_and_single_cycles_yield_nothing() {
    assert_eq!(run_cycle(&vec![], 0, 0), None);
    assert_eq!(run_cycle(&vec![Ok(quote(0, MICRO))], 0, 0), None);
    assert_eq!(
        run_cycle(&vec![Err(FetchError::Rpc), Err(FetchError::Decode)], 0, 0),
        None
    );
}

#[test]
fn cycle_with_two_good_quotes_evaluates_them() {
    let results = vec![Ok(quote(0, 3000 * MICRO)), Ok(quote(1, 3005 * MICRO))];
    let r = run_cycle(&results, 2 * MICRO, MICRO);
    assert_eq!(
        r,
        Some(Opportunity {
            buy_venue: 0,
            sell_venue: 1,
            buy_price: 3000 * MICRO,
            sell_price: 3005 * MICRO,
            profit: 3 * MICRO,
        })
    );
}

#[test]
fn failed_fetches_are_dropped_in_order() {
    let results = vec![
        Err(FetchError::Decode),
        Ok(quote(3, 3000 * MICRO)),
        Err(FetchError::Rpc),
        Ok(quote(4, 3005 * MICRO)),
    ];
    let r = run_cycle(&results, 2 * MICRO, MICRO);
    assert_eq!(r.unwrap().buy_venue, 3);
    assert_eq!(r.unwrap().sell_venue, 4);
}

#[test]
fn evaluate_needs_exactly_two_quotes() {
    let a = quote(0, 3000 * MICRO);
    let b = quote(1, 3005 * MICRO);
    let c = quote(2, 3010 * MICRO);
    assert_eq!(evaluate(&vec![], 0, 0), None);
    assert_eq!(evaluate(&vec![a], 0, 0), None);
    assert_eq!(evaluate(&vec![a, b, c], 0, 0), None);
    assert!(evaluate(&vec![a, b], 2 * MICRO, MICRO).is_some());
}

#[test]
fn final_hop_takes_last_amount_and_empty_is_zero() {
    assert_eq!(final_hop(&vec![]), 0);
    assert_eq!(final_hop(&vec![7]), 7);
    assert_eq!(final_hop(&vec![1_000_000_000_000_000_000, 3005 * MICRO as u128]), 3005 * MICRO as u128);
}

#[test]
fn oversized_amount_is_a_recoverable_overflow() {
    assert_eq!(
        quote_from_raw(1, u64::MAX as u128 + 1),
        Err(FetchError::Overflow)
    );
    assert_eq!(
        quote_from_raw(1, 3005 * MICRO as u128),
        Ok(quote(1, 3005 * MICRO))
    );
}

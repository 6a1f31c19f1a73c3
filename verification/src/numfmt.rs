//! Rendering of micro-unit amounts as human-readable decimal text.
//!
//! Reports show prices and profits with two decimal places. A micro-unit
//! amount (millionths) is first rounded half-up to hundredths, then printed
//! as the whole part, a dot, and exactly two fractional digits.

use vstd::prelude::*;
use vstd::string::StringExecFns;

verus! {

/// Character for the decimal digit `d`.
pub open spec fn digit_char(d: int) -> char {
    if d == 0 {
        '0'
    } else if d == 1 {
        '1'
    } else if d == 2 {
        '2'
    } else if d == 3 {
        '3'
    } else if d == 4 {
        '4'
    } else if d == 5 {
        '5'
    } else if d == 6 {
        '6'
    } else if d == 7 {
        '7'
    } else if d == 8 {
        '8'
    } else {
        '9'
    }
}

/// Decimal digits of `n`, most significant first, with no leading zeros
/// (a single `'0'` for zero).
pub open spec fn dec_digits(n: nat) -> Seq<char>
    decreases n,
{
    if n < 10 {
        seq![digit_char(n as int)]
    } else {
        dec_digits(n / 10) + seq![digit_char((n % 10) as int)]
    }
}

/// The amount in hundredths that `micro` millionths round to, half up.
pub open spec fn rounded_centi(micro: u64) -> nat {
    ((micro + 5000) / 10000) as nat
}

/// The rendered form of a micro-unit amount: whole part, a dot, and exactly
/// two fractional digits, after rounding half-up to hundredths.
pub open spec fn amount_chars(micro: u64) -> Seq<char> {
    dec_digits(rounded_centi(micro) / 100) + seq!['.'] + seq![
        digit_char(((rounded_centi(micro) % 100) / 10) as int),
        digit_char((rounded_centi(micro) % 10) as int),
    ]
}

/// One decimal digit as a string slice.
fn digit_str(d: u64) -> (r: &'static str)
    requires
        d < 10,
    ensures
        r@ == seq![digit_char(d as int)],
{
    proof {
        reveal_strlit("0");
        reveal_strlit("1");
        reveal_strlit("2");
        reveal_strlit("3");
        reveal_strlit("4");
        reveal_strlit("5");
        reveal_strlit("6");
        reveal_strlit("7");
        reveal_strlit("8");
        reveal_strlit("9");
    }
    match d {
        0 => "0",
        1 => "1",
        2 => "2",
        3 => "3",
        4 => "4",
        5 => "5",
        6 => "6",
        7 => "7",
        8 => "8",
        _ => "9",
    }
}

/// Render `n` in decimal, most significant digit first.
pub fn u64_to_dec(n: u64) -> (r: String)
    ensures
        r@ == dec_digits(n as nat),
    decreases n,
{
    if n < 10 {
        digit_str(n).to_owned()
    } else {
        let q = u64_to_dec(n / 10);
        q.concat(digit_str(n % 10))
    }
}

/// Render a micro-unit amount with two decimal places, rounding half-up to
/// hundredths: `3000000000` micro-units (three thousand units) print as
/// `3000.00`, and `1015000` micro-units print as `1.02`.
pub fn format_micro(micro: u64) -> (r: String)
    ensures
        r@ == amount_chars(micro),
{
    let wide: u128 = (micro as u128 + 5000) / 10000;
    let centi: u64 = wide as u64;
    proof {
        assert(centi == rounded_centi(micro));
    }
    let whole = u64_to_dec(centi / 100);
    proof {
        reveal_strlit(".");
    }
    let with_dot = whole.concat(".");
    let with_tens = with_dot.concat(digit_str((centi % 100) / 10));
    let full = with_tens.concat(digit_str(centi % 10));
    proof {
        assert(full@ =~= amount_chars(micro));
    }
    full
}

/// The one-line report for a detected opportunity: both venues, both prices
/// and the net profit, prices and profit with two decimal places.
pub open spec fn report_chars(o: crate::detector::Opportunity) -> Seq<char> {
    "buy on venue "@ + dec_digits(o.buy_venue as nat) + " at "@ + amount_chars(o.buy_price)
        + ", sell on venue "@ + dec_digits(o.sell_venue as nat) + " at "@ + amount_chars(
        o.sell_price,
    ) + ", simulated profit "@ + amount_chars(o.profit)
}

/// Render the human-readable report line for an opportunity.
pub fn format_report(o: &crate::detector::Opportunity) -> (r: String)
    ensures
        r@ == report_chars(*o),
{
    let mut s = String::new();
    s.append("buy on venue ");
    let buy_venue = u64_to_dec(o.buy_venue);
    s.append(buy_venue.as_str());
    s.append(" at ");
    let buy_price = format_micro(o.buy_price);
    s.append(buy_price.as_str());
    s.append(", sell on venue ");
    let sell_venue = u64_to_dec(o.sell_venue);
    s.append(sell_venue.as_str());
    s.append(" at ");
    let sell_price = format_micro(o.sell_price);
    s.append(sell_price.as_str());
    s.append(", simulated profit ");
    let profit = format_micro(o.profit);
    s.append(profit.as_str());
    proof {
        assert(s@ =~= report_chars(*o));
    }
    s
}

} // verus!

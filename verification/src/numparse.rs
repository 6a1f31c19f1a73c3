//! Parsing of decimal amount strings into fixed-point integers.
//!
//! Configuration values (trade amount, profit threshold, simulated cost) are
//! decimal strings such as `"3000.25"`. They are parsed exactly into integer
//! multiples of a power-of-ten unit, with no rounding: a string is accepted
//! only when its fractional part fits the target scale.

use vstd::arithmetic::mul::{lemma_mul_inequality, lemma_mul_is_distributive_sub_other_way};
use vstd::prelude::*;

verus! {

/// ASCII code of `'0'`.
pub const DIGIT_ZERO: u8 = 48;

/// ASCII code of `'.'`.
pub const DOT: u8 = 46;

/// The byte is an ASCII decimal digit.
pub open spec fn is_digit(b: u8) -> bool {
    DIGIT_ZERO <= b && b <= DIGIT_ZERO + 9
}

/// Numeric value of a digit byte.
pub open spec fn digit_of(b: u8) -> nat {
    (b - DIGIT_ZERO) as nat
}

/// Every byte of the sequence is an ASCII decimal digit.
pub open spec fn all_digits(s: Seq<u8>) -> bool {
    forall|k: int| 0 <= k < s.len() ==> is_digit(#[trigger] s[k])
}

/// Value of a digit sequence read as a base-10 numeral.
pub open spec fn digits_value(s: Seq<u8>) -> nat
    decreases s.len(),
{
    if s.len() == 0 {
        0
    } else {
        (digits_value(s.drop_last()) * 10 + digit_of(s.last())) as nat
    }
}

/// Ten to the power `e`.
pub open spec fn pow10(e: nat) -> nat
    decreases e,
{
    if e == 0 {
        1nat
    } else {
        10 * pow10((e - 1) as nat)
    }
}

/// `pow10` is monotone in its exponent.
pub proof fn lemma_pow10_monotone(a: nat, b: nat)
    requires
        a <= b,
    ensures
        pow10(a) <= pow10(b),
    decreases b,
{
    if a < b {
        lemma_pow10_monotone(a, (b - 1) as nat);
    }
}

/// `pow10` turns addition of exponents into multiplication.
pub proof fn lemma_pow10_adds(a: nat, b: nat)
    ensures
        pow10((a + b) as nat) == pow10(a) * pow10(b),
    decreases b,
{
    if b == 0 {
        assert(pow10(b) == 1);
        assert(pow10((a + b) as nat) == pow10(a) * pow10(b));
    } else {
        lemma_pow10_adds(a, (b - 1) as nat);
        assert(pow10((a + b) as nat) == pow10(a) * pow10(b)) by (nonlinear_arith)
            requires
                pow10((a + b) as nat) == 10 * pow10((a + b - 1) as nat),
                pow10((a + b - 1) as nat) == pow10(a) * pow10((b - 1) as nat),
                pow10(b) == 10 * pow10((b - 1) as nat),
        ;
    }
}

/// Concrete value of `pow10(18)`, the largest exponent the parsers use
/// per part.
pub proof fn lemma_pow10_18()
    ensures
        pow10(18) == 1000000000000000000nat,
{
    reveal_with_fuel(pow10, 19);
}

/// The whole string is a bare numeral of at most `max_int` digits.
pub open spec fn wf_plain(s: Seq<u8>, max_int: nat) -> bool {
    1 <= s.len() <= max_int && all_digits(s)
}

/// Position `i` splits the string into a numeral of 1..=`max_int` digits,
/// a dot, and a numeral of 1..=`max_frac` digits.
pub open spec fn wf_split_at(s: Seq<u8>, i: int, max_int: nat, max_frac: nat) -> bool {
    1 <= i <= max_int && i + 2 <= s.len() && s.len() - 1 - i <= max_frac && s[i] == DOT
        && all_digits(s.take(i)) && all_digits(s.skip(i + 1))
}

/// The string is a well-formed decimal amount: digits, optionally followed
/// by a dot and more digits, within the given widths.
pub open spec fn wf_decimal(s: Seq<u8>, max_int: nat, max_frac: nat) -> bool {
    wf_plain(s, max_int) || exists|i: int| wf_split_at(s, i, max_int, max_frac)
}

/// Value of a dotted numeral split at `i`, in units of `10^-scale`.
pub open spec fn split_value(s: Seq<u8>, i: int, scale: nat) -> nat {
    (digits_value(s.take(i)) * pow10(scale) + digits_value(s.skip(i + 1)) * pow10(
        (scale - (s.len() - 1 - i)) as nat,
    )) as nat
}

/// Value of a well-formed decimal amount, in units of `10^-scale`.
pub open spec fn decimal_value(s: Seq<u8>, max_int: nat, max_frac: nat, scale: nat) -> nat {
    if wf_plain(s, max_int) {
        digits_value(s) * pow10(scale)
    } else {
        split_value(s, choose|i: int| wf_split_at(s, i, max_int, max_frac), scale)
    }
}

/// A string admits at most one split position: the dot's.
pub proof fn lemma_split_unique(s: Seq<u8>, i: int, j: int, max_int: nat, max_frac: nat)
    requires
        wf_split_at(s, i, max_int, max_frac),
        wf_split_at(s, j, max_int, max_frac),
    ensures
        i == j,
{
    if i < j {
        assert(s.skip(i + 1)[j - i - 1] == s[j]);
        assert(false);
    }
    if j < i {
        assert(s.skip(j + 1)[i - j - 1] == s[i]);
        assert(false);
    }
}

/// Index of the first dot byte, if any.
fn find_dot(v: &Vec<u8>) -> (r: Option<usize>)
    ensures
        match r {
            Some(d) => d < v@.len() && v@[d as int] == DOT && forall|k: int|
                0 <= k < d ==> v@[k] != DOT,
            None => forall|k: int| 0 <= k < v@.len() ==> v@[k] != DOT,
        },
{
    let mut i: usize = 0;
    while i < v.len()
        invariant
            i <= v@.len(),
            forall|k: int| 0 <= k < i ==> v@[k] != DOT,
        decreases v@.len() - i,
    {
        if v[i] == DOT {
            return Some(i);
        }
        i += 1;
    }
    None
}

/// The bytes in `[lo, hi)` are all decimal digits.
fn check_all_digits(v: &Vec<u8>, lo: usize, hi: usize) -> (r: bool)
    requires
        lo <= hi <= v@.len(),
    ensures
        r == all_digits(v@.subrange(lo as int, hi as int)),
{
    let mut i: usize = lo;
    while i < hi
        invariant
            lo <= i <= hi <= v@.len(),
            forall|k: int| lo <= k < i ==> is_digit(#[trigger] v@[k]),
        decreases hi - i,
    {
        let b: u8 = v[i];
        if b < DIGIT_ZERO || b > DIGIT_ZERO + 9 {
            proof {
                assert(v@.subrange(lo as int, hi as int)[i - lo] == v@[i as int]);
            }
            return false;
        }
        i += 1;
    }
    proof {
        assert forall|k: int|
            0 <= k < hi - lo implies is_digit(v@.subrange(lo as int, hi as int)[k]) by {
            assert(v@.subrange(lo as int, hi as int)[k] == v@[k + lo]);
        }
    }
    true
}

/// Value of the numeral in `[lo, hi)`, at most 18 digits wide.
fn digits_to_u64(v: &Vec<u8>, lo: usize, hi: usize) -> (r: u64)
    requires
        lo <= hi <= v@.len(),
        hi - lo <= 18,
        all_digits(v@.subrange(lo as int, hi as int)),
    ensures
        r as nat == digits_value(v@.subrange(lo as int, hi as int)),
        (r as nat) < pow10((hi - lo) as nat),
{
    let mut acc: u64 = 0;
    let mut i: usize = lo;
    proof {
        assert(v@.subrange(lo as int, lo as int) =~= Seq::<u8>::empty());
    }
    while i < hi
        invariant
            lo <= i <= hi <= v@.len(),
            hi - lo <= 18,
            all_digits(v@.subrange(lo as int, hi as int)),
            acc as nat == digits_value(v@.subrange(lo as int, i as int)),
            (acc as nat) < pow10((i - lo) as nat),
        decreases hi - i,
    {
        proof {
            assert(v@.subrange(lo as int, hi as int)[i - lo] == v@[i as int]);
            assert(v@.subrange(lo as int, i as int + 1).drop_last() =~= v@.subrange(
                lo as int,
                i as int,
            ));
            assert(v@.subrange(lo as int, i as int + 1).last() == v@[i as int]);
            lemma_pow10_monotone((i + 1 - lo) as nat, 18);
            lemma_pow10_18();
        }
        let d: u8 = v[i] - DIGIT_ZERO;
        acc = acc * 10 + d as u64;
        i += 1;
    }
    proof {
        lemma_pow10_monotone((hi - lo) as nat, 18);
        lemma_pow10_18();
    }
    acc
}

/// Ten to the power `e` as a machine integer.
fn pow10_u128(e: usize) -> (r: u128)
    requires
        e <= 36,
    ensures
        r as nat == pow10(e as nat),
{
    let mut r: u128 = 1;
    let mut k: usize = 0;
    while k < e
        invariant
            k <= e <= 36,
            r as nat == pow10(k as nat),
        decreases e - k,
    {
        proof {
            lemma_pow10_monotone((k + 1) as nat, 36);
            lemma_pow10_adds(18, 18);
            lemma_pow10_18();
        }
        r = r * 10;
        k += 1;
    }
    r
}

/// Parse a decimal amount string into an integer count of `10^-scale`
/// units.
///
/// The accepted form is 1..=`max_int` digits, optionally followed by a dot
/// and 1..=`max_frac` digits; anything else (signs, exponents, a bare or
/// trailing dot, excess width) yields `None`. The value is exact: no
/// rounding occurs, since the fractional width never exceeds `scale`.
pub fn parse_fixed(v: &Vec<u8>, max_int: usize, max_frac: usize, scale: usize) -> (r: Option<u128>)
    requires
        1 <= max_int <= 18,
        1 <= max_frac <= scale <= 18,
    ensures
        r is Some <==> wf_decimal(v@, max_int as nat, max_frac as nat),
        r is Some ==> r.unwrap() as nat == decimal_value(
            v@,
            max_int as nat,
            max_frac as nat,
            scale as nat,
        ),
        r is Some ==> (r.unwrap() as nat) < pow10((max_int + scale) as nat),
{
    let n: usize = v.len();
    match find_dot(v) {
        None => {
            if 1 <= n && n <= max_int && check_all_digits(v, 0, n) {
                let iv: u64 = digits_to_u64(v, 0, n);
                let p: u128 = pow10_u128(scale);
                proof {
                    assert(v@.subrange(0, n as int) =~= v@);
                    lemma_pow10_monotone(n as nat, max_int as nat);
                    lemma_pow10_monotone(scale as nat, 18);
                    lemma_pow10_monotone(max_int as nat, 18);
                    lemma_pow10_monotone(0, scale as nat);
                    lemma_pow10_18();
                    // iv * p <= (pow10(max_int) - 1) * pow10(scale)
                    lemma_mul_inequality(
                        iv as int,
                        pow10(max_int as nat) as int - 1,
                        pow10(scale as nat) as int,
                    );
                    lemma_mul_is_distributive_sub_other_way(
                        pow10(scale as nat) as int,
                        pow10(max_int as nat) as int,
                        1,
                    );
                    lemma_pow10_adds(max_int as nat, scale as nat);
                    lemma_pow10_monotone((max_int + scale) as nat, 36);
                    lemma_pow10_adds(18, 18);
                }
                Some((iv as u128) * p)
            } else {
                proof {
                    assert forall|j: int|
                        !wf_split_at(v@, j, max_int as nat, max_frac as nat) by {
                        if wf_split_at(v@, j, max_int as nat, max_frac as nat) {
                            assert(v@[j] == DOT);
                        }
                    }
                    if 1 <= n && n <= max_int {
                        assert(!all_digits(v@.subrange(0, n as int)));
                        assert(v@.subrange(0, n as int) =~= v@);
                    }
                }
                None
            }
        },
        Some(d) => {
            if 1 <= d && d <= max_int && n - d - 1 >= 1 && n - d - 1 <= max_frac
                && check_all_digits(v, 0, d) && check_all_digits(v, d + 1, n) {
                proof {
                    assert(v@.subrange(0, d as int) =~= v@.take(d as int));
                    assert(v@.subrange(d as int + 1, n as int) =~= v@.skip(d as int + 1));
                    assert(wf_split_at(v@, d as int, max_int as nat, max_frac as nat));
                    assert(!is_digit(DOT));
                    assert(!all_digits(v@));
                    let i0 = choose|i: int| wf_split_at(v@, i, max_int as nat, max_frac as nat);
                    lemma_split_unique(v@, i0, d as int, max_int as nat, max_frac as nat);
                }
                let iv: u64 = digits_to_u64(v, 0, d);
                let fl: usize = n - d - 1;
                let fv: u64 = digits_to_u64(v, d + 1, n);
                let p_scale: u128 = pow10_u128(scale);
                let p_frac: u128 = pow10_u128(scale - fl);
                proof {
                    lemma_pow10_monotone(d as nat, max_int as nat);
                    lemma_pow10_monotone(max_int as nat, 18);
                    lemma_pow10_monotone(scale as nat, 18);
                    lemma_pow10_monotone(0, (scale - fl) as nat);
                    lemma_pow10_18();
                    // integer part: iv * pow10(scale) <= pow10(max_int + scale) - pow10(scale)
                    lemma_mul_inequality(
                        iv as int,
                        pow10(max_int as nat) as int - 1,
                        pow10(scale as nat) as int,
                    );
                    lemma_mul_is_distributive_sub_other_way(
                        pow10(scale as nat) as int,
                        pow10(max_int as nat) as int,
                        1,
                    );
                    lemma_pow10_adds(max_int as nat, scale as nat);
                    // fractional part: fv * pow10(scale - fl) <= pow10(scale) - pow10(scale - fl)
                    lemma_mul_inequality(
                        fv as int,
                        pow10(fl as nat) as int - 1,
                        pow10((scale - fl) as nat) as int,
                    );
                    lemma_mul_is_distributive_sub_other_way(
                        pow10((scale - fl) as nat) as int,
                        pow10(fl as nat) as int,
                        1,
                    );
                    lemma_pow10_adds(fl as nat, (scale - fl) as nat);
                    // the total stays below pow10(max_int + scale) <= pow10(36)
                    lemma_pow10_monotone((max_int + scale) as nat, 36);
                    lemma_pow10_adds(18, 18);
                }
                Some((iv as u128) * p_scale + (fv as u128) * p_frac)
            } else {
                proof {
                    assert(v@.subrange(0, d as int) =~= v@.take(d as int));
                    assert(v@.subrange(d as int + 1, n as int) =~= v@.skip(d as int + 1));
                    assert forall|j: int|
                        !wf_split_at(v@, j, max_int as nat, max_frac as nat) by {
                        if wf_split_at(v@, j, max_int as nat, max_frac as nat) {
                            if j < d {
                                assert(v@[j] == DOT);
                                assert(false);
                            }
                            if j > d {
                                assert(v@.take(j)[d as int] == v@[d as int]);
                                assert(false);
                            }
                            assert(wf_split_at(v@, d as int, max_int as nat, max_frac as nat));
                            assert(false);
                        }
                    }
                    assert(!is_digit(DOT));
                    assert(v@[d as int] == DOT);
                    assert(!all_digits(v@));
                }
                None
            }
        },
    }
}

/// Parse a decimal amount into micro-units (millionths): up to 12 integer
/// digits and up to 6 fractional digits. This is the form of the profit
/// threshold and the simulated cost.
pub fn parse_micro(v: &Vec<u8>) -> (r: Option<u64>)
    ensures
        r is Some <==> wf_decimal(v@, 12, 6),
        r is Some ==> r.unwrap() as nat == decimal_value(v@, 12, 6, 6),
{
    match parse_fixed(v, 12, 6, 6) {
        None => None,
        Some(x) => {
            proof {
                lemma_pow10_18();
            }
            Some(x as u64)
        },
    }
}

/// Parse a decimal token amount into its smallest unit at 18 decimals
/// (the trade amount, denominated in the input token): up to 18 integer
/// digits and up to 18 fractional digits.
pub fn parse_wei(v: &Vec<u8>) -> (r: Option<u128>)
    ensures
        r is Some <==> wf_decimal(v@, 18, 18),
        r is Some ==> r.unwrap() as nat == decimal_value(v@, 18, 18, 18),
{
    parse_fixed(v, 18, 18, 18)
}

} // verus!

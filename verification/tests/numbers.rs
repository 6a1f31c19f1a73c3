use arb_monitor::detector::Opportunity;
use arb_monitor::numfmt::{format_micro, format_report, u64_to_dec};
use arb_monitor::numparse::{parse_micro, parse_wei};

fn bytes(s: &str) -> Vec<u8> {
    s.as_bytes().to_vec()
}

#[test]
fn parse_micro_accepts_plain_and_dotted_amounts() {
    assert_eq!(parse_micro(&bytes("2.00")), Some(2_000_000));
    assert_eq!(parse_micro(&bytes("1.00")), Some(1_000_000));
    assert_eq!(parse_micro(&bytes("3000.50")), Some(3_000_500_000));
    assert_eq!(parse_micro(&bytes("3000")), Some(3_000_000_000));
    assert_eq!(parse_micro(&bytes("0.000001")), Some(1));
    assert_eq!(parse_micro(&bytes("007")), Some(7_000_000));
    assert_eq!(parse_micro(&bytes("0")), Some(0));
}

#[test]
fn parse_micro_rejects_malformed_amounts() {
    assert_eq!(parse_micro(&bytes("")), None);
    assert_eq!(parse_micro(&bytes(".")), None);
    assert_eq!(parse_micro(&bytes("5.")), None);
    assert_eq!(parse_micro(&bytes(".5")), None);
    assert_eq!(parse_micro(&bytes("-2")), None);
    assert_eq!(parse_micro(&bytes("+2")), None);
    assert_eq!(parse_micro(&bytes("1e3")), None);
    assert_eq!(parse_micro(&bytes("1 0")), None);
    assert_eq!(parse_micro(&bytes("1.2.3")), None);
    // More fractional digits than micro-units can hold.
    assert_eq!(parse_micro(&bytes("1.0000001")), None);
    // More than twelve integer digits.
    assert_eq!(parse_micro(&bytes("1234567890123")), None);
    assert_eq!(parse_micro(&bytes("999999999999")), Some(999_999_999_999_000_000));
}

#[test]
fn parse_wei_scales_to_eighteen_decimals() {
    assert_eq!(parse_wei(&bytes("1")), Some(1_000_000_000_000_000_000));
    assert_eq!(parse_wei(&bytes("0.5")), Some(500_000_000_000_000_000));
    assert_eq!(
        parse_wei(&bytes("1.000000000000000001")),
        Some(1_000_000_000_000_000_001)
    );
    assert_eq!(parse_wei(&bytes("0.0000000000000000001")), None);
    assert_eq!(parse_wei(&bytes("2.5e1")), None);
}

#[test]
fn format_micro_rounds_half_up_to_two_places() {
    assert_eq!(format_micro(3_000_000), "3.00");
    assert_eq!(format_micro(0), "0.00");
    assert_eq!(format_micro(3_000_500_000), "3000.50");
    assert_eq!(format_micro(123_456_789), "123.46");
    // Exactly half a hundredth rounds up.
    assert_eq!(format_micro(1_015_000), "1.02");
    assert_eq!(format_micro(1_014_999), "1.01");
    // Just below one rounds to one.
    assert_eq!(format_micro(999_999), "1.00");
    assert_eq!(format_micro(50 * 1_000), "0.05");
}

#[test]
fn u64_to_dec_renders_all_digits() {
    assert_eq!(u64_to_dec(0), "0");
    assert_eq!(u64_to_dec(7), "7");
    assert_eq!(u64_to_dec(10), "10");
    assert_eq!(u64_to_dec(9_876_543_210), "9876543210");
    assert_eq!(u64_to_dec(u64::MAX), "18446744073709551615");
}

#[test]
fn report_line_shows_venues_prices_and_profit() {
    let o = Opportunity {
        buy_venue: 0,
        sell_venue: 1,
        buy_price: 3_000_000_000,
        sell_price: 3_005_000_000,
        profit: 3_000_000,
    };
    assert_eq!(
        format_report(&o),
        "buy on venue 0 at 3000.00, sell on venue 1 at 3005.00, simulated profit 3.00"
    );
}

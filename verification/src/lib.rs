//! Core logic of a two-venue arbitrage monitor.
//!
//! The library decides, from two observed swap prices for the same notional
//! trade, whether a profitable round trip exists after subtracting a fixed
//! simulated cost, and whether that profit clears a configured threshold.
//! All money amounts are fixed-point integers counted in millionths
//! (micro-units) of the output token, so the comparison logic is exact.
//!
//! Fetching quotes over RPC, reading configuration from the environment and
//! driving the polling loop are left to the surrounding application; the
//! library only consumes the plain values those steps produce.

pub mod cycle;
pub mod detector;
pub mod numfmt;
pub mod numparse;

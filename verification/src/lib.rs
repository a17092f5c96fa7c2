//! Pricing for a point-of-sale terminal: items are scanned one unit at a time
//! and the terminal prices the tally against per-item tiers ("2 each, or 4
//! for 7"), in exact decimal arithmetic.

pub mod amount;
pub mod decimal;
pub mod price;
pub mod terminal;
pub mod laws;

//! Record keeping for equipment rentals.
//!
//! An [`Entry`](model::Entry) logs the profit and the expenses of a named
//! piece of equipment, with the rental contract it was under. A ledger is a
//! sequence of entries in the order in which they were registered. It is
//! kept as text, one line for each entry: [`encode`](codec::encode) writes
//! that text and [`decode`](codec::decode) reads it, passing over what it
//! cannot read rather than failing.
//!
//! Amounts are whole hundredths of the currency unit. Dates are read and
//! written by `chrono`.
//!
//! - [`text`]: characters, splitting and joining, lines, quotes
//! - [`decimal`]: digits, day counts and amounts as text
//! - [`date`]: calendar dates and their ISO 8601 text
//! - [`model`]: entries, contracts, the balance, the form
//! - [`format`]: what the text of a ledger is, and what it holds
//! - [`codec`]: writing and reading that text
//! - [`round_trip`]: what holds of a ledger that is written and read again

pub mod codec;
pub mod date;
pub mod decimal;
pub mod format;
pub mod model;
pub mod round_trip;
pub mod text;

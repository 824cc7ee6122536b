//! The core of a minimal electronic trading exchange: per-instrument
//! limit order books with price-time priority matching, the order entry
//! and clearing protocol codecs, the gateway session core, and the
//! matching engine dispatch — all stated in contracts and verified.
//!
//! Socket transport, polling, configuration and database access live
//! outside this crate; they hand plain values in and take plain values
//! out.

pub mod clearing;
pub mod disseminator;
pub mod feed;
pub mod instrument;
pub mod instrument_list;
pub mod market;
pub mod mockdisseminator;
pub mod network;
pub mod oep;
pub mod order;
pub mod processor;
pub mod session;

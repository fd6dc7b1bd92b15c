//! Verified persistence model for on-chain exchange activity.
//!
//! The library records three kinds of exchange events — coin registrations,
//! market registrations, and order-book maker events — into an append-only
//! store that enforces the backend's uniqueness and referential constraints:
//! a coin's fully-qualified type is registered at most once, a market id is
//! registered at most once, and a maker event is accepted only for a market
//! that already exists. Every quantity that crosses the boundary is carried
//! as an arbitrary-precision plain value, never floating point.

pub mod coin;
pub mod error;
pub mod event;
pub mod laws;
pub mod market;
pub mod numeric;
pub mod storage;

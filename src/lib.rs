//! Metering-data client support: an expiring cache for access tokens,
//! rate-limit classification, spot-price requests and the aggregation of
//! metering intervals into hourly and daily usage and cost buckets.
use vstd::prelude::*;

pub mod keyed;
pub mod request;
pub mod response;
pub mod text;
pub mod usage;
pub mod calendar;
pub mod cache;
pub mod client;
pub mod error;
pub mod export;
pub mod spot;

verus! {

} // verus!

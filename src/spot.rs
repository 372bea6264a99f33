//! Settings of the spot-price client.
use vstd::prelude::*;

verus! {

/// The spot-price service takes no settings.
pub struct Config {}

} // verus!

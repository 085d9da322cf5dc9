//! The weighted response-time policy: mean latency per unit of weight.

use crate::algorithms::choice::{is_choice, weighted_scores};
use crate::algorithms::weighted::least_per_weight;
use crate::error::Error;
use crate::table::Table;
use vstd::prelude::*;

verus! {

/// Selects the backend with the least mean latency divided by its weight,
/// rounded down; among equal scores, the least URL. A backend without a
/// weight, or with weight 0, counts with weight 1. Fails only where
/// `latencies` holds no backend.
pub fn weighted_response_time(latencies: Table<u32>, weights: Table<u32>) -> (r: Result<
    String,
    Error,
>)
    ensures
        match r {
            Ok(url) => is_choice(weighted_scores(latencies@, weights@), url@),
            Err(e) => e is NoServerAvailable && latencies@ == Map::<Seq<char>, u32>::empty(),
        },
{
    least_per_weight(&latencies, &weights)
}

} // verus!

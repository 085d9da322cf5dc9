//! The weighted least-connection policy: load per unit of weight.

use crate::algorithms::choice::{is_choice, weighted_scores};
use crate::algorithms::weighted::least_per_weight;
use crate::error::Error;
use crate::table::Table;
use vstd::prelude::*;

verus! {

/// Selects the backend with the least load divided by its weight, rounded
/// down; among equal scores, the least URL. A backend without a weight, or
/// with weight 0, counts with weight 1. Fails only where `server_loads`
/// holds no backend.
pub fn weighted_least_connection(server_loads: Table<u32>, weights: Table<u32>) -> (r: Result<
    String,
    Error,
>)
    ensures
        match r {
            Ok(url) => is_choice(weighted_scores(server_loads@, weights@), url@),
            Err(e) => e is NoServerAvailable && server_loads@ == Map::<Seq<char>, u32>::empty(),
        },
{
    least_per_weight(&server_loads, &weights)
}

} // verus!

//! What the two weighted policies share: a value per backend, divided by the
//! backend's weight.

use crate::algorithms::choice::{is_choice, least, precedes, weight_or_one, weighted_scores};
use crate::error::Error;
use crate::table::Table;
use vstd::prelude::*;

verus! {

/// Selects the backend with the least value per weight; among equal scores,
/// the least URL. Fails only where `values` holds no backend.
pub fn least_per_weight(values: &Table<u32>, weights: &Table<u32>) -> (r: Result<String, Error>)
    ensures
        match r {
            Ok(url) => is_choice(weighted_scores(values@, weights@), url@),
            Err(e) => e is NoServerAvailable && values@ == Map::<Seq<char>, u32>::empty(),
        },
{
    let n = values.len();
    let mut scores: Vec<u32> = Vec::new();
    let mut i: usize = 0;
    while i < n
        invariant
            i <= n,
            n == values.keys().len(),
            values.listed(),
            scores@.len() == i,
            forall|j: int|
                0 <= j < i ==> #[trigger] scores@[j] as int == values@[values.keys()[j]] as int
                    / weight_or_one(weights@, values.keys()[j]),
        decreases n - i,
    {
        let weight: u32 = match weights.get(values.key_at(i).as_str()) {
            Some(w) => if *w >= 1 {
                *w
            } else {
                1
            },
            None => 1,
        };
        scores.push(*values.value_at(i) / weight);
        i += 1;
    }
    match least(values, &scores) {
        Some(best) => {
            let url = values.key_at(best).clone();
            proof {
                let keys = values.keys();
                let map = weighted_scores(values@, weights@);
                assert forall|k: Seq<char>| #[trigger] map.contains_key(k) implies precedes(
                    map[url@],
                    url@,
                    map[k],
                    k,
                ) by {
                    assert(keys.contains(k));
                    let j = choose|j: int| 0 <= j < keys.len() && keys[j] == k;
                    assert(scores@[j] as int == map[keys[j]]);
                    assert(scores@[best as int] as int == map[keys[best as int]]);
                }
            }
            Ok(url)
        },
        None => {
            proof {
                assert forall|k: Seq<char>| !values@.contains_key(k) by {
                    if values@.contains_key(k) {
                        assert(values.keys().contains(k));
                    }
                }
                assert(values@ =~= Map::<Seq<char>, u32>::empty());
            }
            Err(Error::NoServerAvailable)
        },
    }
}

/// A backend that the weights do not hold is scored as with weight 1: to
/// give it the weight 1 changes no score, and so no choice.
pub proof fn lemma_absent_weight_is_one(
    values: Map<Seq<char>, u32>,
    weights: Map<Seq<char>, u32>,
    url: Seq<char>,
)
    requires
        !weights.contains_key(url),
    ensures
        weight_or_one(weights, url) == 1,
        weighted_scores(values, weights) == weighted_scores(values, weights.insert(url, 1)),
        forall|u: Seq<char>|
            is_choice(weighted_scores(values, weights), u) <==> is_choice(
                weighted_scores(values, weights.insert(url, 1)),
                u,
            ),
{
    assert(weighted_scores(values, weights) =~= weighted_scores(values, weights.insert(url, 1)));
}

} // verus!

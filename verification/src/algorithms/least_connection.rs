//! The least-connection policy: the backend with the fewest requests in
//! flight.

use crate::algorithms::choice::{is_choice, least, plain_scores};
use crate::error::Error;
use crate::table::Table;
use vstd::prelude::*;

verus! {

/// Selects the backend with the least load; among equal loads, the least
/// URL. Fails only where `server_loads` holds no backend.
pub fn least_connection(server_loads: Table<u32>) -> (r: Result<String, Error>)
    ensures
        match r {
            Ok(url) => is_choice(plain_scores(server_loads@), url@),
            Err(e) => e is NoServerAvailable && server_loads@ == Map::<Seq<char>, u32>::empty(),
        },
{
    let n = server_loads.len();
    let mut scores: Vec<u32> = Vec::new();
    let mut i: usize = 0;
    while i < n
        invariant
            i <= n,
            n == server_loads.keys().len(),
            server_loads.listed(),
            scores@.len() == i,
            forall|j: int|
                0 <= j < i ==> #[trigger] scores@[j] == server_loads@[server_loads.keys()[j]],
        decreases n - i,
    {
        scores.push(*server_loads.value_at(i));
        i += 1;
    }
    match least(&server_loads, &scores) {
        Some(best) => {
            let url = server_loads.key_at(best).clone();
            proof {
                let keys = server_loads.keys();
                let map = plain_scores(server_loads@);
                assert forall|k: Seq<char>| #[trigger] map.contains_key(k) implies
                    crate::algorithms::choice::precedes(map[url@], url@, map[k], k) by {
                    assert(keys.contains(k));
                    let j = choose|j: int| 0 <= j < keys.len() && keys[j] == k;
                    assert(scores@[j] == server_loads@[keys[j]]);
                    assert(scores@[best as int] == server_loads@[keys[best as int]]);
                }
            }
            Ok(url)
        },
        None => {
            proof {
                assert forall|k: Seq<char>| !server_loads@.contains_key(k) by {
                    if server_loads@.contains_key(k) {
                        assert(server_loads.keys().contains(k));
                    }
                }
                assert(server_loads@ =~= Map::<Seq<char>, u32>::empty());
            }
            Err(Error::NoServerAvailable)
        },
    }
}

/// Raising the load of the selected backend moves the choice to no backend
/// that is loaded more than the raised load.
pub proof fn lemma_least_connection_monotone(
    loads: Map<Seq<char>, u32>,
    b: Seq<char>,
    raised: u32,
    after: Seq<char>,
)
    requires
        is_choice(plain_scores(loads), b),
        raised > loads[b],
        is_choice(plain_scores(loads.insert(b, raised)), after),
    ensures
        after == b || (loads.contains_key(after) && loads[after] <= raised),
{
    let later = plain_scores(loads.insert(b, raised));
    assert(later.contains_key(b));
    assert(crate::algorithms::choice::precedes(later[after], after, later[b], b));
}

} // verus!

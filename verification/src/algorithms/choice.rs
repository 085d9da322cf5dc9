//! What every table policy shares: each backend gets a score, the least score
//! wins, and among equal scores the least URL wins.

use crate::table::Table;
use crate::text::{
    lemma_url_le_antisymmetric, lemma_url_le_reflexive, lemma_url_le_total,
    lemma_url_le_transitive, str_le, url_le,
};
use vstd::prelude::*;

verus! {

/// Whether the backend `u1` with score `first` is to be preferred to, or is, the
/// backend `u2` with score `second`.
pub open spec fn precedes(first: int, u1: Seq<char>, second: int, u2: Seq<char>) -> bool {
    first < second || (first == second && url_le(u1, u2))
}

/// Whether `url` is the backend that a policy with these scores selects.
pub open spec fn is_choice(scores: Map<Seq<char>, int>, url: Seq<char>) -> bool {
    &&& scores.contains_key(url)
    &&& forall|k: Seq<char>| #[trigger]
        scores.contains_key(k) ==> precedes(scores[url], url, scores[k], k)
}

/// The weight that a backend is scored with: its weight where the weights
/// hold one that is at least 1, else 1.
pub open spec fn weight_or_one(weights: Map<Seq<char>, u32>, url: Seq<char>) -> int {
    if weights.contains_key(url) && weights[url] >= 1 {
        weights[url] as int
    } else {
        1
    }
}

/// The scores of the unweighted policy: each backend's own value.
pub open spec fn plain_scores(values: Map<Seq<char>, u32>) -> Map<Seq<char>, int> {
    Map::new(|k: Seq<char>| values.contains_key(k), |k: Seq<char>| values[k] as int)
}

/// The scores of the weighted policies: each backend's value divided by its
/// weight, rounded down.
pub open spec fn weighted_scores(
    values: Map<Seq<char>, u32>,
    weights: Map<Seq<char>, u32>,
) -> Map<Seq<char>, int> {
    Map::new(
        |k: Seq<char>| values.contains_key(k),
        |k: Seq<char>| values[k] as int / weight_or_one(weights, k),
    )
}

/// No two backends are both the choice: a policy's answer is decided by the
/// scores alone.
pub proof fn lemma_choice_unique(scores: Map<Seq<char>, int>, a: Seq<char>, b: Seq<char>)
    requires
        is_choice(scores, a),
        is_choice(scores, b),
    ensures
        a == b,
{
    assert(precedes(scores[a], a, scores[b], b));
    assert(precedes(scores[b], b, scores[a], a));
    lemma_url_le_antisymmetric(a, b);
}

/// A backend whose score is strictly the least is the choice, whatever the
/// URLs are.
pub proof fn lemma_strict_minimum_is_choice(scores: Map<Seq<char>, int>, a: Seq<char>)
    requires
        scores.contains_key(a),
        forall|k: Seq<char>| #[trigger] scores.contains_key(k) && k != a ==> scores[a] < scores[k],
    ensures
        is_choice(scores, a),
        forall|b: Seq<char>| is_choice(scores, b) ==> b == a,
{
    lemma_url_le_reflexive(a);
    assert forall|b: Seq<char>| is_choice(scores, b) implies b == a by {
        lemma_choice_unique(scores, a, b);
    }
}

/// Where there is a backend at all, one of them is the choice.
pub proof fn lemma_choice_exists(scores: Map<Seq<char>, int>, keys: Seq<Seq<char>>)
    requires
        keys.len() > 0,
        forall|i: int| 0 <= i < keys.len() ==> scores.contains_key(#[trigger] keys[i]),
        forall|k: Seq<char>| scores.contains_key(k) ==> keys.contains(k),
    ensures
        exists|u: Seq<char>| is_choice(scores, u),
{
    let i = least_place(scores, keys, keys.len() as int);
    lemma_least_place(scores, keys, keys.len() as int);
    let u = keys[i];
    assert forall|k: Seq<char>| #[trigger] scores.contains_key(k) implies precedes(
        scores[u],
        u,
        scores[k],
        k,
    ) by {
        assert(keys.contains(k));
        let j = choose|j: int| 0 <= j < keys.len() && keys[j] == k;
        assert(precedes(scores[keys[i]], keys[i], scores[keys[j]], keys[j]));
    }
    assert(is_choice(scores, u));
}

/// The place among the first `n` keys of the one that precedes the others.
pub open spec fn least_place(scores: Map<Seq<char>, int>, keys: Seq<Seq<char>>, n: int) -> int
    decreases n,
{
    if n <= 1 {
        0
    } else {
        let best = least_place(scores, keys, n - 1);
        if precedes(scores[keys[best]], keys[best], scores[keys[n - 1]], keys[n - 1]) {
            best
        } else {
            n - 1
        }
    }
}

/// `least_place` names a key that precedes each of the first `n`.
pub proof fn lemma_least_place(scores: Map<Seq<char>, int>, keys: Seq<Seq<char>>, n: int)
    requires
        1 <= n <= keys.len(),
    ensures
        0 <= least_place(scores, keys, n) < n,
        forall|j: int|
            0 <= j < n ==> precedes(
                scores[keys[least_place(scores, keys, n)]],
                keys[least_place(scores, keys, n)],
                #[trigger] scores[keys[j]],
                keys[j],
            ),
    decreases n,
{
    if n <= 1 {
        lemma_url_le_reflexive(keys[0]);
    } else {
        lemma_least_place(scores, keys, n - 1);
        let best = least_place(scores, keys, n - 1);
        let last = n - 1;
        lemma_url_le_reflexive(keys[last]);
        if precedes(scores[keys[best]], keys[best], scores[keys[last]], keys[last]) {
        } else {
            lemma_url_le_total(keys[best], keys[last]);
            assert(precedes(scores[keys[last]], keys[last], scores[keys[best]], keys[best]));
            assert forall|j: int| 0 <= j < n implies precedes(
                scores[keys[last]],
                keys[last],
                #[trigger] scores[keys[j]],
                keys[j],
            ) by {
                if j < last {
                    lemma_precedes_transitive(
                        scores[keys[last]],
                        keys[last],
                        scores[keys[best]],
                        keys[best],
                        scores[keys[j]],
                        keys[j],
                    );
                }
            }
        }
    }
}

/// Preference carries over a backend in between.
pub proof fn lemma_precedes_transitive(
    first: int,
    u1: Seq<char>,
    second: int,
    u2: Seq<char>,
    third: int,
    u3: Seq<char>,
)
    requires
        precedes(first, u1, second, u2),
        precedes(second, u2, third, u3),
    ensures
        precedes(first, u1, third, u3),
{
    if first == second && second == third {
        lemma_url_le_transitive(u1, u2, u3);
    }
}

/// The place in `candidates` of the backend that precedes all others by the
/// scores given place by place, or `None` where there is no backend.
pub fn least(candidates: &Table<u32>, scores: &Vec<u32>) -> (r: Option<usize>)
    requires
        scores@.len() == candidates.keys().len(),
    ensures
        candidates.listed(),
        match r {
            Some(i) => {
                &&& i < candidates.keys().len()
                &&& forall|j: int|
                    0 <= j < candidates.keys().len() ==> precedes(
                        scores@[i as int] as int,
                        candidates.keys()[i as int],
                        #[trigger] scores@[j] as int,
                        candidates.keys()[j],
                    )
            },
            None => candidates.keys().len() == 0,
        },
{
    let n = candidates.len();
    if n == 0 {
        return None;
    }
    let mut best: usize = 0;
    let mut i: usize = 1;
    proof {
        lemma_url_le_reflexive(candidates.keys()[0]);
    }
    while i < n
        invariant
            1 <= i <= n,
            n == candidates.keys().len(),
            scores@.len() == n,
            best < i,
            candidates.listed(),
            forall|j: int|
                0 <= j < i ==> precedes(
                    scores@[best as int] as int,
                    candidates.keys()[best as int],
                    #[trigger] scores@[j] as int,
                    candidates.keys()[j],
                ),
        decreases n - i,
    {
        let better = if scores[i] < scores[best] {
            true
        } else if scores[i] == scores[best] {
            !str_le(candidates.key_at(best).as_str(), candidates.key_at(i).as_str())
        } else {
            false
        };
        proof {
            let keys = candidates.keys();
            lemma_url_le_reflexive(keys[i as int]);
            if better {
                lemma_url_le_total(keys[best as int], keys[i as int]);
                assert forall|j: int| 0 <= j < i + 1 implies precedes(
                    scores@[i as int] as int,
                    keys[i as int],
                    #[trigger] scores@[j] as int,
                    keys[j],
                ) by {
                    if j < i {
                        lemma_precedes_transitive(
                            scores@[i as int] as int,
                            keys[i as int],
                            scores@[best as int] as int,
                            keys[best as int],
                            scores@[j] as int,
                            keys[j],
                        );
                    }
                }
            }
        }
        if better {
            best = i;
        }
        i += 1;
    }
    Some(best)
}

} // verus!

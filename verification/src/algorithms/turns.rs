//! Two backends under the least-connection policy: which of them the next
//! request goes to.

use crate::algorithms::choice::{lemma_strict_minimum_is_choice, plain_scores, precedes};
use crate::algorithms::select::{
    candidates, completed, is_well, lemma_chosen_is_the_choice, reserved, Algorithm, Reserved,
};
use crate::db::redis::Telemetry;
use crate::error::Fault;
use crate::origin::url_normal_form;
use crate::text::{lemma_url_le_reflexive, url_le};
use vstd::prelude::*;

verus! {

/// Whether `a` and `b` are the two backends that the store has a load or a
/// weight for, both healthy and both with a URL to forward to.
pub open spec fn pair(store: Telemetry, a: Seq<char>, b: Seq<char>) -> bool {
    &&& a != b
    &&& forall|k: Seq<char>| #[trigger]
        completed(store.server_load, store.server_weights).contains_key(k) <==> k == a || k == b
    &&& is_well(store.server_health, a)
    &&& is_well(store.server_health, b)
    &&& url_normal_form(a) is Some
    &&& url_normal_form(b) is Some
}

/// Whether `a` and `b` are the two backends of the store and equally loaded.
pub open spec fn level(store: Telemetry, a: Seq<char>, b: Seq<char>) -> bool {
    pair(store, a, b) && store.load_of(a) == store.load_of(b)
}

/// The backend `key` selected and one request reserved for it.
pub open spec fn reserved_for(store: Telemetry, key: Seq<char>) -> Result<Reserved, Fault> {
    Ok(Reserved { key, url: url_normal_form(key)->Some_0, store: reserved(store, key) })
}

/// A reservation changes the load of one backend and nothing else: the two
/// backends of the store stay its two backends.
pub proof fn lemma_pair_stays(store: Telemetry, a: Seq<char>, b: Seq<char>, key: Seq<char>)
    requires
        pair(store, a, b),
        key == a || key == b,
    ensures
        pair(reserved(store, key), a, b),
{
    let after = reserved(store, key);
    assert forall|k: Seq<char>| #[trigger]
        completed(after.server_load, after.server_weights).contains_key(k) <==> k == a || k
            == b by {
        assert(completed(store.server_load, store.server_weights).contains_key(k) <==> k == a || k
            == b);
    }
}

/// Of two backends that are equally loaded, the request goes to the one
/// with the lesser URL.
pub proof fn lemma_level_goes_to_the_lesser(
    store: Telemetry,
    a: Seq<char>,
    b: Seq<char>,
    location: Seq<char>,
)
    requires
        level(store, a, b),
        url_le(a, b),
        store.load_of(a) < u32::MAX,
    ensures
        Algorithm::LeastConnection.outcome(store, location) == reserved_for(store, a),
{
    let table = completed(store.server_load, store.server_weights);
    assert(table.contains_key(a) && table.contains_key(b));
    let scores = plain_scores(candidates(store.server_load, store));
    lemma_url_le_reflexive(a);
    assert forall|k: Seq<char>| #[trigger] scores.contains_key(k) implies precedes(
        scores[a],
        a,
        scores[k],
        k,
    ) by {
        assert(table.contains_key(k));
    }
    lemma_chosen_is_the_choice(scores, a);
}

/// Of two backends, the request goes to the one that is loaded less,
/// whatever the URLs are.
pub proof fn lemma_the_lighter_goes_next(
    store: Telemetry,
    a: Seq<char>,
    b: Seq<char>,
    location: Seq<char>,
)
    requires
        pair(store, a, b),
        store.load_of(b) < store.load_of(a),
    ensures
        Algorithm::LeastConnection.outcome(store, location) == reserved_for(store, b),
{
    let table = completed(store.server_load, store.server_weights);
    assert(table.contains_key(a) && table.contains_key(b));
    let scores = plain_scores(candidates(store.server_load, store));
    assert forall|k: Seq<char>| #[trigger]
        scores.contains_key(k) && k != b implies scores[b] < scores[k] by {
        assert(table.contains_key(k));
    }
    lemma_strict_minimum_is_choice(scores, b);
    lemma_chosen_is_the_choice(scores, b);
}

/// A store that was just set up with two backends is level, whatever their
/// weights, and neither is loaded.
pub proof fn lemma_fresh_store_is_level(
    endpoint: Seq<char>,
    a: (Seq<char>, u32),
    b: (Seq<char>, u32),
)
    requires
        a.0 != b.0,
        url_normal_form(a.0) is Some,
        url_normal_form(b.0) is Some,
    ensures
        level(Telemetry::empty(endpoint).with_backends(seq![a, b]), a.0, b.0),
        Telemetry::empty(endpoint).with_backends(seq![a, b]).load_of(a.0) == 0,
{
    let start = Telemetry::empty(endpoint);
    let both = seq![a, b];
    assert(both.drop_last() =~= seq![a]);
    assert(seq![a].drop_last() =~= Seq::<(Seq<char>, u32)>::empty());
    reveal_with_fuel(Telemetry::with_backends, 3);
    let store = start.with_backends(both);
    assert(store.server_weights =~= Map::<Seq<char>, u32>::empty().insert(a.0, a.1).insert(
        b.0,
        b.1,
    ));
    assert(store.server_load =~= Map::<Seq<char>, u32>::empty());
    assert(store.server_health =~= Map::<Seq<char>, bool>::empty());
}

} // verus!

//! The configured policy and its application to the telemetry store.

use crate::algorithms::choice::{
    is_choice, lemma_choice_unique, plain_scores, weighted_scores,
};
use crate::algorithms::least_connection::least_connection;
use crate::algorithms::location_based::{location_based, region_of};
use crate::algorithms::weighted_least_connection::weighted_least_connection;
use crate::algorithms::weighted_response_time::weighted_response_time;
use crate::db::redis::{narrow, narrowed, overflow_fault, range_fault, RedisClient, Telemetry};
use crate::error::{Error, Fault};
use crate::json::text_view;
use crate::middleware::server::{url_fault, ServerClient};
use crate::origin::{normalize, url_normal_form};
use crate::sequence::{lemma_take_all, lemma_take_next};
use crate::table::Table;
use crate::text::str_eq;
use vstd::prelude::*;
use vstd::string::*;

verus! {

/// The policy by which the dispatcher selects a backend.
#[derive(Debug, Clone, Copy, PartialEq, Eq)]
pub enum Algorithm {
    LeastConnection,
    /// Reserved: it selects no backend.
    ResourceBased,
    WeightedLeastConnection,
    WeightedResponseTime,
    LocationBased,
}

/// The policy that a configuration names. A name that names none stands for
/// least-connection.
pub open spec fn named(name: Seq<char>) -> Algorithm {
    if name == "resource_based"@ {
        Algorithm::ResourceBased
    } else if name == "weighted_least_connection"@ {
        Algorithm::WeightedLeastConnection
    } else if name == "weighted_response_time"@ {
        Algorithm::WeightedResponseTime
    } else if name == "location_based"@ || name == "location"@ {
        Algorithm::LocationBased
    } else {
        Algorithm::LeastConnection
    }
}

impl Default for Algorithm {
    fn default() -> (a: Self)
        ensures
            a == Algorithm::LeastConnection,
    {
        Algorithm::LeastConnection
    }
}

impl From<String> for Algorithm {
    fn from(algorithm: String) -> (a: Self) {
        let name = algorithm.as_str();
        if str_eq(name, "resource_based") {
            Algorithm::ResourceBased
        } else if str_eq(name, "weighted_least_connection") {
            Algorithm::WeightedLeastConnection
        } else if str_eq(name, "weighted_response_time") {
            Algorithm::WeightedResponseTime
        } else if str_eq(name, "location_based") || str_eq(name, "location") {
            Algorithm::LocationBased
        } else {
            Algorithm::LeastConnection
        }
    }
}

impl vstd::std_specs::convert::FromSpecImpl<String> for Algorithm {
    open spec fn obeys_from_spec() -> bool {
        true
    }

    open spec fn from_spec(algorithm: String) -> Self {
        named(algorithm@)
    }
}

/// The values of a snapshot with every backend that has a weight but no
/// value counted in, with the value 0.
pub open spec fn completed(values: Map<Seq<char>, u32>, weights: Map<Seq<char>, u32>) -> Map<
    Seq<char>,
    u32,
> {
    Map::new(
        |k: Seq<char>| values.contains_key(k) || weights.contains_key(k),
        |k: Seq<char>|
            if values.contains_key(k) {
                values[k]
            } else {
                0
            },
    )
}

/// Whether a backend counts as healthy: it does, unless its last probe
/// failed. A backend that was never probed is healthy.
pub open spec fn is_well(health: Map<Seq<char>, bool>, url: Seq<char>) -> bool {
    health.contains_key(url) ==> health[url]
}

/// The values of the backends that are healthy.
pub open spec fn healthy_only(values: Map<Seq<char>, u32>, health: Map<Seq<char>, bool>) -> Map<
    Seq<char>,
    u32,
> {
    Map::new(|k: Seq<char>| values.contains_key(k) && is_well(health, k), |k: Seq<char>| values[k])
}

/// Where no backend is unhealthy, none is left out: health changes no
/// selection while every backend is healthy.
pub proof fn lemma_all_healthy(values: Map<Seq<char>, u32>, health: Map<Seq<char>, bool>)
    requires
        forall|k: Seq<char>| is_well(health, k),
    ensures
        healthy_only(values, health) == values,
{
    assert(healthy_only(values, health) =~= values);
}

/// The backends that a table policy selects among, each with its value: the
/// healthy ones that have a value or a weight, a missing value counting as 0.
pub open spec fn candidates(values: Map<Seq<char>, u32>, store: Telemetry) -> Map<
    Seq<char>,
    u32,
> {
    healthy_only(completed(values, store.server_weights), store.server_health)
}

/// The backend that these scores select, or `NoServerAvailable` where there
/// is none to select from.
pub open spec fn chosen(scores: Map<Seq<char>, int>) -> Result<Seq<char>, Fault> {
    if scores == Map::<Seq<char>, int>::empty() {
        Err(Fault::NoServerAvailable)
    } else {
        Ok(choose|url: Seq<char>| is_choice(scores, url))
    }
}

/// The store after one more request was reserved for the backend `url`.
pub open spec fn reserved(store: Telemetry, url: Seq<char>) -> Telemetry {
    Telemetry {
        server_load: store.server_load.insert(url, (store.load_of(url) + 1) as u32),
        ..store
    }
}

/// What becomes of the selected backend `key`, whose URL in normal form is
/// `url`, if it has one: unless it has none, is unhealthy or is loaded to the
/// full, one more request is counted for `key`.
pub open spec fn reservation_with(store: Telemetry, key: Seq<char>, url: Option<Seq<char>>) -> Result<
    (Seq<char>, Telemetry),
    Fault,
> {
    match url {
        None => Err(Fault::Other(url_fault())),
        Some(url) => if !is_well(store.server_health, key) {
            Err(Fault::NoServerAvailable)
        } else if store.load_of(key) + 1 > u32::MAX {
            Err(Fault::RedisError(overflow_fault()))
        } else {
            Ok((url, reserved(store, key)))
        },
    }
}

/// What becomes of the selected backend `key`: the URL to forward to, which
/// is the key in normal form, and the store with one more request counted
/// for `key`.
pub open spec fn reservation(store: Telemetry, key: Seq<char>) -> Result<
    (Seq<char>, Telemetry),
    Fault,
> {
    reservation_with(store, key, url_normal_form(key))
}

/// A selection that was reserved: the backend's key in the store, the URL to
/// forward to, and the store after the reservation.
pub struct Reserved {
    pub key: Seq<char>,
    pub url: Seq<char>,
    pub store: Telemetry,
}

impl Algorithm {
    /// The backend that the policy selects from what the store holds, for a
    /// request from `location`.
    ///
    /// The table policies select among the healthy backends that have a load
    /// (for the response-time policy: a mean latency) or a weight; a missing
    /// load or mean counts as 0, a missing weight as 1. The location policy
    /// goes by its table.
    pub open spec fn selection(self, store: Telemetry, location: Seq<char>) -> Result<
        Seq<char>,
        Fault,
    > {
        match self {
            Algorithm::LeastConnection => chosen(
                plain_scores(candidates(store.server_load, store)),
            ),
            Algorithm::WeightedLeastConnection => chosen(
                weighted_scores(candidates(store.server_load, store), store.server_weights),
            ),
            Algorithm::WeightedResponseTime => if narrow(store.server_latency) {
                chosen(
                    weighted_scores(
                        candidates(narrowed(store.server_latency), store),
                        store.server_weights,
                    ),
                )
            } else {
                Err(Fault::RedisError(range_fault()))
            },
            Algorithm::LocationBased => match region_of(location) {
                Some(url) => Ok(url),
                None => Err(Fault::InternalServerError),
            },
            Algorithm::ResourceBased => Err(Fault::InternalServerError),
        }
    }

    /// What a selection with its reservation comes to.
    pub open spec fn outcome(self, store: Telemetry, location: Seq<char>) -> Result<
        Reserved,
        Fault,
    > {
        match self.selection(store, location) {
            Ok(key) => match reservation(store, key) {
                Ok((url, after)) => Ok(Reserved { key, url, store: after }),
                Err(fault) => Err(fault),
            },
            Err(fault) => Err(fault),
        }
    }

    /// Selects a backend for a request from `location` and reserves the
    /// request: the load of the selected backend goes up by one, before
    /// anything is sent. On an error the store is as it was.
    pub fn select_server(&self, redis_client: &mut RedisClient, location: &str) -> (r: Result<
        ServerClient,
        Error,
    >)
        ensures
            match r {
                Ok(server) => self.outcome(old(redis_client)@, location@) matches Ok(reserved)
                    && reserved.url == server.url@ && reserved.store == final(redis_client)@,
                Err(e) => self.outcome(old(redis_client)@, location@) == Err::<Reserved, Fault>(
                    e@,
                ) && final(redis_client)@ == old(redis_client)@,
            },
    {
        match self.select_backend(redis_client, location) {
            Ok((_, server)) => Ok(server),
            Err(e) => Err(e),
        }
    }

    /// Selects a backend and reserves the request, as `select_server` does,
    /// and hands back the key of the backend in the store as well.
    pub fn select_backend(&self, redis_client: &mut RedisClient, location: &str) -> (r: Result<
        (String, ServerClient),
        Error,
    >)
        ensures
            match r {
                Ok((key, server)) => self.outcome(old(redis_client)@, location@) == Ok::<
                    Reserved,
                    Fault,
                >(Reserved { key: key@, url: server.url@, store: final(redis_client)@ }),
                Err(e) => self.outcome(old(redis_client)@, location@) == Err::<Reserved, Fault>(
                    e@,
                ) && final(redis_client)@ == old(redis_client)@,
            },
    {
        let key = match self.select(redis_client, location) {
            Ok(key) => key,
            Err(e) => {
                return Err(e);
            },
        };
        match Self::reserve(redis_client, key.as_str(), normalize(key.as_str())) {
            Ok(server) => Ok((key, server)),
            Err(e) => Err(e),
        }
    }

    /// Applies the policy to what the store holds.
    pub fn select(&self, redis_client: &RedisClient, location: &str) -> (r: Result<String, Error>)
        ensures
            match r {
                Ok(key) => self.selection(redis_client@, location@) == Ok::<Seq<char>, Fault>(
                    key@,
                ),
                Err(e) => self.selection(redis_client@, location@) == Err::<Seq<char>, Fault>(
                    e@,
                ),
            },
    {
        let weights = match redis_client.get_all_server_weights() {
            Ok(weights) => weights,
            Err(e) => {
                return Err(e);
            },
        };
        let health = match redis_client.get_all_server_health() {
            Ok(health) => health,
            Err(e) => {
                return Err(e);
            },
        };
        match self {
            Algorithm::LeastConnection => {
                let loads = match redis_client.get_all_server_load() {
                    Ok(loads) => loads,
                    Err(e) => {
                        return Err(e);
                    },
                };
                let candidates = keep_healthy(&complete(&loads, &weights), &health);
                let ghost scores = plain_scores(candidates@);
                let r = least_connection(candidates);
                proof {
                    if r is Ok {
                        lemma_chosen_is_the_choice(scores, r->Ok_0@);
                    } else {
                        assert(scores =~= Map::<Seq<char>, int>::empty());
                    }
                }
                r
            },
            Algorithm::WeightedLeastConnection => {
                let loads = match redis_client.get_all_server_load() {
                    Ok(loads) => loads,
                    Err(e) => {
                        return Err(e);
                    },
                };
                let candidates = keep_healthy(&complete(&loads, &weights), &health);
                let ghost scores = weighted_scores(candidates@, weights@);
                let r = weighted_least_connection(candidates, weights);
                proof {
                    if r is Ok {
                        lemma_chosen_is_the_choice(scores, r->Ok_0@);
                    } else {
                        assert(scores =~= Map::<Seq<char>, int>::empty());
                    }
                }
                r
            },
            Algorithm::WeightedResponseTime => {
                let means = match redis_client.get_all_server_mean_latency() {
                    Ok(means) => means,
                    Err(e) => {
                        return Err(e);
                    },
                };
                let candidates = keep_healthy(&complete(&means, &weights), &health);
                let ghost scores = weighted_scores(candidates@, weights@);
                let r = weighted_response_time(candidates, weights);
                proof {
                    if r is Ok {
                        lemma_chosen_is_the_choice(scores, r->Ok_0@);
                    } else {
                        assert(scores =~= Map::<Seq<char>, int>::empty());
                    }
                }
                r
            },
            Algorithm::LocationBased => location_based(location),
            Algorithm::ResourceBased => Err(Error::InternalServerError),
        }
    }

    /// Reserves a request for the selected backend `key`, whose URL in
    /// normal form is `url`, if it has one. An unhealthy backend gets no
    /// request.
    pub fn reserve(redis_client: &mut RedisClient, key: &str, url: Option<String>) -> (r: Result<
        ServerClient,
        Error,
    >)
        ensures
            match r {
                Ok(server) => reservation_with(old(redis_client)@, key@, text_view(url)) == Ok::<
                    (Seq<char>, Telemetry),
                    Fault,
                >((server.url@, final(redis_client)@)),
                Err(e) => reservation_with(old(redis_client)@, key@, text_view(url)) == Err::<
                    (Seq<char>, Telemetry),
                    Fault,
                >(e@) && final(redis_client)@ == old(redis_client)@,
            },
    {
        let url = match url {
            Some(url) => url,
            None => {
                return Err(
                    Error::Other(String::from_str("Invalid URL, expected an absolute URL")),
                );
            },
        };
        match redis_client.get_server_health(key) {
            Ok(Some(false)) => {
                return Err(Error::NoServerAvailable);
            },
            Ok(_) => {},
            Err(e) => {
                return Err(e);
            },
        }
        match redis_client.update_server_load(key, 1) {
            Ok(()) => Ok(ServerClient { url }),
            Err(e) => Err(e),
        }
    }
}

/// The backend that is the choice by the scores is the one that `chosen`
/// names: `chosen` leaves nothing open.
pub proof fn lemma_chosen_is_the_choice(scores: Map<Seq<char>, int>, url: Seq<char>)
    requires
        is_choice(scores, url),
    ensures
        chosen(scores) == Ok::<Seq<char>, Fault>(url),
{
    assert(scores.contains_key(url));
    let picked = choose|k: Seq<char>| is_choice(scores, k);
    lemma_choice_unique(scores, picked, url);
}

/// The snapshot `values` without the backends whose last probe failed.
pub fn keep_healthy(values: &Table<u32>, health: &Table<bool>) -> (r: Table<u32>)
    ensures
        r@ == healthy_only(values@, health@),
{
    let mut r: Table<u32> = Table::new();
    let n = values.len();
    let ghost keys = values.keys();
    let mut i: usize = 0;
    while i < n
        invariant
            i <= n,
            n == keys.len(),
            keys == values.keys(),
            values.listed(),
            forall|k: Seq<char>| #[trigger]
                r@.contains_key(k) <==> keys.take(i as int).contains(k) && is_well(health@, k),
            forall|k: Seq<char>| #[trigger]
                r@.contains_key(k) ==> values@.contains_key(k) && r@[k] == values@[k],
        decreases n - i,
    {
        let key = values.key_at(i);
        let healthy = match health.get(key.as_str()) {
            Some(h) => *h,
            None => true,
        };
        let ghost before = r@;
        if healthy {
            r.insert(key.clone(), *values.value_at(i));
        }
        proof {
            let earlier = keys.take(i as int);
            let later = keys.take(i + 1);
            lemma_take_next(keys, i as int);
            assert forall|k: Seq<char>| #[trigger]
                r@.contains_key(k) <==> later.contains(k) && is_well(health@, k) by {
                assert(before.contains_key(k) <==> earlier.contains(k) && is_well(health@, k));
                if k != keys[i as int] {
                    assert(r@.contains_key(k) == before.contains_key(k));
                }
            }
            assert forall|k: Seq<char>| #[trigger] r@.contains_key(k) implies values@.contains_key(
                k,
            ) && r@[k] == values@[k] by {
                if k != keys[i as int] {
                    assert(before.contains_key(k));
                }
            }
        }
        i += 1;
    }
    proof {
        lemma_take_all(keys);
        assert(r@ =~= healthy_only(values@, health@));
    }
    r
}

/// The snapshot `values` with every backend of `weights` counted in that it
/// lacks, with the value 0.
pub fn complete(values: &Table<u32>, weights: &Table<u32>) -> (r: Table<u32>)
    ensures
        r@ == completed(values@, weights@),
{
    let mut r = values.snapshot();
    let n = weights.len();
    let ghost keys = weights.keys();
    let mut i: usize = 0;
    while i < n
        invariant
            i <= n,
            n == keys.len(),
            keys == weights.keys(),
            weights.listed(),
            forall|k: Seq<char>|
                r@.contains_key(k) <==> values@.contains_key(k) || keys.take(i as int).contains(k),
            forall|k: Seq<char>| #[trigger]
                r@.contains_key(k) ==> r@[k] == if values@.contains_key(k) {
                    values@[k]
                } else {
                    0u32
                },
        decreases n - i,
    {
        let key = weights.key_at(i);
        let ghost before = r@;
        if !r.contains_key(key.as_str()) {
            r.insert(key.clone(), 0);
        }
        proof {
            let earlier = keys.take(i as int);
            let later = keys.take(i + 1);
            lemma_take_next(keys, i as int);
        }
        i += 1;
    }
    proof {
        lemma_take_all(keys);
        assert(r@ =~= completed(values@, weights@));
    }
    r
}

} // verus!

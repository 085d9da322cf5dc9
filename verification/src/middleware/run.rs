//! Requests in turn: what the dispatcher decides for each of them, and what
//! the run leaves in the store.

use crate::algorithms::select::{reserved, Algorithm};
use crate::algorithms::turns::{
    lemma_level_goes_to_the_lesser, lemma_pair_stays, lemma_the_lighter_goes_next, level, pair,
};
use crate::db::redis::Telemetry;
use crate::error::{Error, Fault};
use crate::middleware::route::{
    decided, forwarded, forwarded_method, is_local, Decision, Sent,
};
use crate::origin::{url_joined, url_normal_form};
use crate::text::{trimmed_start, url_le};
use vstd::prelude::*;

verus! {

/// A request as it reaches the dispatcher.
pub struct Incoming {
    pub method: Seq<char>,
    pub uri: Seq<char>,
    pub body: Seq<u8>,
    pub location: Seq<char>,
}

/// The decisions of the dispatcher for the requests in turn, and the store
/// after the last of them.
pub open spec fn run(policy: Algorithm, store: Telemetry, requests: Seq<Incoming>) -> (
    Seq<Result<Decision, Fault>>,
    Telemetry,
)
    decreases requests.len(),
{
    if requests.len() == 0 {
        (Seq::empty(), store)
    } else {
        let (decisions, held) = run(policy, store, requests.drop_last());
        let next = requests.last();
        let (decision, after) = decided(
            policy,
            held,
            next.method,
            next.uri,
            next.body,
            next.location,
        );
        (decisions.push(decision), after)
    }
}

/// Whether `request` is one that can be forwarded to the backend `key`: it
/// is not for the proxy itself, its method is GET or POST, and its path
/// resolves against the backend's URL.
pub open spec fn can_go_to(request: Incoming, key: Seq<char>) -> bool {
    &&& !is_local(request.uri)
    &&& forwarded_method(request.method) is Some
    &&& url_normal_form(key) is Some
    &&& url_joined(url_normal_form(key)->Some_0, trimmed_start(request.uri, '/')) is Some
}

/// `request` as it is forwarded to the backend `key`.
pub open spec fn sent_to(request: Incoming, key: Seq<char>) -> Sent {
    let url = url_normal_form(key)->Some_0;
    Sent {
        key,
        url,
        method: forwarded_method(request.method)->Some_0,
        target: url_joined(url, trimmed_start(request.uri, '/'))->Some_0,
        body: forwarded(request.body),
    }
}

/// Two healthy backends that are equally loaded take turns under the
/// least-connection policy. Of requests in turn that can be forwarded to
/// either, each is forwarded, once: the first and every second after it to
/// the backend with the lesser URL, the others to the other. So the two
/// share the requests evenly, and nothing but their loads changes in the
/// store.
pub proof fn lemma_two_backends_take_turns(
    store: Telemetry,
    a: Seq<char>,
    b: Seq<char>,
    requests: Seq<Incoming>,
)
    requires
        level(store, a, b),
        url_le(a, b),
        store.load_of(a) + (requests.len() + 1) / 2 <= u32::MAX,
        forall|i: int|
            0 <= i < requests.len() ==> can_go_to(#[trigger] requests[i], a) && can_go_to(
                requests[i],
                b,
            ),
    ensures
        ({
            let (decisions, after) = run(Algorithm::LeastConnection, store, requests);
            &&& decisions.len() == requests.len()
            &&& forall|i: int|
                0 <= i < requests.len() ==> #[trigger] decisions[i] == Ok::<Decision, Fault>(
                    Decision::Forward(
                        sent_to(
                            requests[i],
                            if i % 2 == 0 {
                                a
                            } else {
                                b
                            },
                        ),
                    ),
                )
            &&& pair(after, a, b)
            &&& after.load_of(a) == store.load_of(a) + (requests.len() + 1) / 2
            &&& after.load_of(b) == store.load_of(b) + requests.len() / 2
            &&& after == Telemetry { server_load: after.server_load, ..store }
        }),
    decreases requests.len(),
{
    if requests.len() > 0 {
        let earlier = requests.drop_last();
        let n = earlier.len() as int;
        let next = requests.last();
        assert forall|i: int| 0 <= i < earlier.len() implies can_go_to(
            #[trigger] earlier[i],
            a,
        ) && can_go_to(earlier[i], b) by {
            assert(earlier[i] == requests[i]);
        }
        lemma_two_backends_take_turns(store, a, b, earlier);
        let (decisions, held) = run(Algorithm::LeastConnection, store, earlier);
        assert(can_go_to(requests[n], a) && can_go_to(requests[n], b));
        if n % 2 == 0 {
            lemma_level_goes_to_the_lesser(held, a, b, next.location);
            lemma_pair_stays(held, a, b, a);
        } else {
            lemma_the_lighter_goes_next(held, a, b, next.location);
            lemma_pair_stays(held, a, b, b);
        }
        let (all, after) = run(Algorithm::LeastConnection, store, requests);
        assert forall|i: int| 0 <= i < requests.len() implies #[trigger] all[i] == Ok::<
            Decision,
            Fault,
        >(
            Decision::Forward(
                sent_to(
                    requests[i],
                    if i % 2 == 0 {
                        a
                    } else {
                        b
                    },
                ),
            ),
        ) by {
            if i < n {
                assert(all[i] == decisions[i]);
                assert(earlier[i] == requests[i]);
            }
        }
    }
}

/// The dispatcher writes nothing to the store but one reservation. A request
/// that is forwarded leaves one more request counted for its backend. A
/// request that is served locally or refused leaves the store as it was,
/// but for one that is refused for its upstream URL: by then its reservation
/// stands.
pub proof fn lemma_one_reservation_at_most(
    policy: Algorithm,
    store: Telemetry,
    request: Incoming,
)
    ensures
        ({
            let (decision, after) = decided(
                policy,
                store,
                request.method,
                request.uri,
                request.body,
                request.location,
            );
            &&& after == store || exists|key: Seq<char>| after == #[trigger] reserved(store, key)
            &&& decision matches Ok(Decision::Forward(sent)) ==> after == reserved(store, sent.key)
            &&& decision matches Ok(Decision::Local) ==> after == store
            &&& decision matches Err(fault) ==> fault is InvalidUrl || after == store
        }),
{
}

/// A request that is refused for an error of the store is answered with
/// status 500, and the store is as it was.
pub proof fn lemma_store_error_changes_nothing(
    policy: Algorithm,
    store: Telemetry,
    request: Incoming,
    e: Error,
)
    requires
        e is RedisError,
        decided(policy, store, request.method, request.uri, request.body, request.location).0
            == Err::<Decision, Fault>(e@),
    ensures
        e.status() == 500,
        decided(policy, store, request.method, request.uri, request.body, request.location).1
            == store,
{
}

} // verus!

//! The latency aggregator: each backend's samples become its mean latency.

use crate::db::redis::{backends_of, RedisClient, Telemetry};
use crate::sequence::{lemma_take_all, lemma_take_next};
use crate::table::Table;
use vstd::prelude::*;

verus! {

/// The sum of the samples.
pub open spec fn total(samples: Seq<u128>) -> int
    decreases samples.len(),
{
    if samples.len() == 0 {
        0
    } else {
        total(samples.drop_last()) + samples.last()
    }
}

/// The mean of the samples, rounded down; 0 where there is none.
pub open spec fn mean_of(samples: Seq<u128>) -> int {
    if samples.len() == 0 {
        0
    } else {
        total(samples) / (samples.len() as int)
    }
}

/// The sum of samples is at most as many times the largest sample.
pub proof fn lemma_total_bounds(samples: Seq<u128>)
    ensures
        0 <= total(samples) <= samples.len() * u128::MAX,
    decreases samples.len(),
{
    if samples.len() > 0 {
        lemma_total_bounds(samples.drop_last());
        assert(samples.len() * u128::MAX == (samples.len() - 1) * u128::MAX + u128::MAX)
            by (nonlinear_arith);
    }
}

/// The mean of samples is a sample's worth at most: it fits where they fit.
pub proof fn lemma_mean_fits(samples: Seq<u128>)
    ensures
        0 <= mean_of(samples) <= u128::MAX,
{
    lemma_total_bounds(samples);
    if samples.len() > 0 {
        let n = samples.len() as int;
        let t = total(samples);
        assert(0 <= t / n <= u128::MAX) by (nonlinear_arith)
            requires
                n > 0,
                0 <= t <= n * u128::MAX,
        ;
    }
}

fn mean(latencies: &Vec<u128>) -> (m: u128)
    ensures
        m == mean_of(latencies@),
{
    let count = latencies.len();
    if count == 0 {
        return 0;
    }
    let n: u128 = count as u128;
    let ghost step: int = (u128::MAX / n) as int;
    let mut whole: u128 = 0;
    let mut rest: u128 = 0;
    let mut i: usize = 0;
    proof {
        assert(latencies@.take(0) =~= Seq::<u128>::empty());
    }
    while i < count
        invariant
            i <= count,
            count == latencies@.len(),
            n == count,
            n > 0,
            step == u128::MAX / n,
            n * whole + rest == total(latencies@.take(i as int)),
            whole <= i * step,
            rest <= i * (n - 1),
        decreases count - i,
    {
        let x = latencies[i];
        proof {
            let next = latencies@.take(i + 1);
            lemma_take_next(latencies@, i as int);
            let q = (x / n) as int;
            let r = (x % n) as int;
            assert(x == n * q + r && 0 <= r < n && q <= step) by (nonlinear_arith)
                requires
                    q == x / n,
                    r == x % n,
                    n > 0,
                    step == u128::MAX / n,
                    x <= u128::MAX,
            ;
            assert((i + 1) * step <= u128::MAX && (i + 1) * (n - 1) <= u128::MAX
                && (i + 1) * step == i * step + step && (i + 1) * (n - 1) == i * (n - 1) + (n
                - 1)) by (nonlinear_arith)
                requires
                    0 <= i < n,
                    n <= 0xffff_ffff_ffff_ffff,
                    step == u128::MAX / n,
            ;
            assert(n * (whole + q) + (rest + r) == n * whole + rest + (n * q + r))
                by (nonlinear_arith);
        }
        whole = whole + x / n;
        rest = rest + x % n;
        i += 1;
    }
    proof {
        lemma_take_all(latencies@);
        let t = total(latencies@);
        assert((n * whole + rest) / (n as int) == whole + rest / n) by (nonlinear_arith)
            requires
                n > 0,
                rest >= 0,
        ;
        lemma_mean_fits(latencies@);
    }
    whole + rest / n
}

/// The mean of the samples, rounded down; 0 where there is none. No sum of
/// samples is too large for it.
pub fn mean_latency(latencies: Vec<u128>) -> (m: u128)
    ensures
        m == mean_of(latencies@),
{
    mean(&latencies)
}

/// The store after one run of the aggregator: every registered backend has
/// the mean of its samples as its mean latency. Where the registered
/// backends cannot be read, the store is as it was.
pub open spec fn aggregated(store: Telemetry) -> Telemetry {
    match backends_of(store.server_url) {
        Ok(urls) => Telemetry {
            server_latency: Map::new(
                |k: Seq<char>| store.server_latency.contains_key(k) || urls.contains(k),
                |k: Seq<char>|
                    if urls.contains(k) {
                        mean_of(store.samples_of(k)) as u128
                    } else {
                        store.server_latency[k]
                    },
            ),
            ..store
        },
        Err(_) => store,
    }
}

/// A second run of the aggregator, with no sample written in between,
/// changes nothing.
pub proof fn lemma_aggregator_idempotent(store: Telemetry)
    ensures
        aggregated(aggregated(store)) == aggregated(store),
{
    let once = aggregated(store);
    assert(once.server_url == store.server_url);
    assert(once.samples == store.samples);
    assert(aggregated(once).server_latency =~= once.server_latency);
}

/// One run of the aggregator.
pub fn check(redis_conn: &mut RedisClient)
    ensures
        final(redis_conn)@ == aggregated(old(redis_conn)@),
{
    let ghost start = redis_conn@;
    let records: Table<Vec<u128>> = match redis_conn.get_servers_latency_record() {
        Ok(records) => records,
        Err(_) => {
            return ;
        },
    };
    let ghost urls = backends_of(start.server_url)->Ok_0;
    let n = records.len();
    let ghost keys = records.keys();
    let mut i: usize = 0;
    proof {
        let expected = Telemetry {
            server_latency: Map::new(
                |k: Seq<char>| start.server_latency.contains_key(k) || keys.take(0).contains(k),
                |k: Seq<char>|
                    if keys.take(0).contains(k) {
                        mean_of(start.samples_of(k)) as u128
                    } else {
                        start.server_latency[k]
                    },
            ),
            ..start
        };
        assert(expected.server_latency =~= start.server_latency);
    }
    while i < n
        invariant
            i <= n,
            n == keys.len(),
            keys == records.keys(),
            records.listed(),
            forall|k: Seq<char>| #[trigger]
                records@.contains_key(k) ==> records@[k]@ == start.samples_of(k),
            redis_conn@ == (Telemetry {
                server_latency: Map::new(
                    |k: Seq<char>|
                        start.server_latency.contains_key(k) || keys.take(i as int).contains(k),
                    |k: Seq<char>|
                        if keys.take(i as int).contains(k) {
                            mean_of(start.samples_of(k)) as u128
                        } else {
                            start.server_latency[k]
                        },
                ),
                ..start
            }),
        decreases n - i,
    {
        let url = records.key_at(i);
        let m = mean(records.value_at(i));
        let ghost before = redis_conn@;
        let _ = redis_conn.update_server_mean_latency(url.as_str(), m);
        proof {
            let earlier = keys.take(i as int);
            let later = keys.take(i + 1);
            lemma_take_next(keys, i as int);
            lemma_mean_fits(start.samples_of(keys[i as int]));
            let expected = Telemetry {
                server_latency: Map::new(
                    |k: Seq<char>| start.server_latency.contains_key(k) || later.contains(k),
                    |k: Seq<char>|
                        if later.contains(k) {
                            mean_of(start.samples_of(k)) as u128
                        } else {
                            start.server_latency[k]
                        },
                ),
                ..start
            };
            assert(redis_conn@.server_latency =~= expected.server_latency);
        }
        i += 1;
    }
    proof {
        lemma_take_all(keys);
        assert(redis_conn@.server_latency =~= aggregated(start).server_latency);
    }
}

} // verus!

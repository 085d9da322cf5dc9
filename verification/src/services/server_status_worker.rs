//! The health prober: which backends failed their probe.

use crate::db::redis::{RedisClient, Telemetry};
use crate::sequence::{lemma_take_all, lemma_take_next};
use vstd::prelude::*;

verus! {

/// The URLs of the probes that failed, in the order of the probes.
pub open spec fn failing(probes: Seq<(String, bool)>) -> Seq<Seq<char>>
    decreases probes.len(),
{
    if probes.len() == 0 {
        Seq::empty()
    } else if probes.last().1 {
        failing(probes.drop_last())
    } else {
        failing(probes.drop_last()).push(probes.last().0@)
    }
}

/// The store after the probes were recorded in turn: each probed backend is
/// healthy or not as its probe found it. Nothing else changes; no backend is
/// taken out of the registration.
pub open spec fn probed(store: Telemetry, probes: Seq<(String, bool)>) -> Telemetry
    decreases probes.len(),
{
    if probes.len() == 0 {
        store
    } else {
        let before = probed(store, probes.drop_last());
        Telemetry {
            server_health: before.server_health.insert(probes.last().0@, probes.last().1),
            ..before
        }
    }
}

/// The URLs of a list of backends.
pub open spec fn names(urls: Seq<String>) -> Seq<Seq<char>> {
    Seq::new(urls.len(), |i: int| urls[i]@)
}

/// Records one round of probes, each a backend's URL and whether the backend
/// was found healthy, and sums it up: `Ok` where every probe succeeded, else
/// the URLs of the backends that failed, in the order of the probes.
pub fn server_status(redis_conn: &mut RedisClient, probes: Vec<(String, bool)>) -> (r: Result<
    (),
    Vec<String>,
>)
    ensures
        final(redis_conn)@ == probed(old(redis_conn)@, probes@),
        match r {
            Ok(()) => failing(probes@).len() == 0,
            Err(failing_servers) => failing_servers@.len() > 0 && names(failing_servers@)
                == failing(probes@),
        },
{
    let ghost start = redis_conn@;
    let mut failing_servers: Vec<String> = Vec::new();
    let n = probes.len();
    let mut i: usize = 0;
    proof {
        assert(probes@.take(0) =~= Seq::<(String, bool)>::empty());
        assert(names(failing_servers@) =~= Seq::<Seq<char>>::empty());
    }
    while i < n
        invariant
            i <= n,
            n == probes@.len(),
            names(failing_servers@) == failing(probes@.take(i as int)),
            redis_conn@ == probed(start, probes@.take(i as int)),
        decreases n - i,
    {
        let ghost before = names(failing_servers@);
        proof {
            lemma_take_next(probes@, i as int);
        }
        let _ = redis_conn.update_server_health(probes[i].0.as_str(), probes[i].1);
        if !probes[i].1 {
            failing_servers.push(probes[i].0.clone());
            proof {
                assert(names(failing_servers@) =~= before.push(probes@[i as int].0@));
            }
        }
        i += 1;
    }
    proof {
        lemma_take_all(probes@);
    }
    if failing_servers.len() == 0 {
        Ok(())
    } else {
        Err(failing_servers)
    }
}

} // verus!

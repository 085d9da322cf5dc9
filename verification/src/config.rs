//! The configuration and the state that the dispatcher works on.

use crate::algorithms::select::{named, Algorithm};
use crate::db::redis::{identities, RedisClient, Telemetry};
use crate::error::{Error, Fault};
use crate::middleware::server::{entry_identity, StaticServerData};
use crate::sequence::{gathered, lemma_gathered_fails, lemma_take_all, lemma_take_next};
use crate::text::{split, split_at_each, texts};
use vstd::prelude::*;
use vstd::string::*;

verus! {

/// The settings that the environment gives.
#[derive(Debug, Clone, PartialEq, Eq)]
pub struct SystemConfig {
    /// The backends: `url$weight`, separated by commas.
    pub available_servers: String,
    /// The port to listen on.
    pub port: u16,
    /// Where the telemetry store lives.
    pub redis_url: String,
    /// The name of the selection policy.
    pub algorithm: String,
    /// How much to log.
    pub trace_level: String,
}

/// What the dispatcher works on: the telemetry store and the policy.
#[derive(Debug)]
pub struct State {
    pub redis_conn: RedisClient,
    pub algorithm: Algorithm,
}

/// How one entry of the configuration is read.
pub open spec fn read_entry() -> spec_fn(Seq<char>) -> Result<(Seq<char>, u32), Seq<char>> {
    |entry: Seq<char>| entry_identity(entry)
}

/// The identities that the entries stand for, or what is wrong with the
/// first entry that stands for none.
pub open spec fn entry_identities(entries: Seq<Seq<char>>) -> Result<
    Seq<(Seq<char>, u32)>,
    Seq<char>,
> {
    gathered(entries, read_entry())
}

/// The store and the policy that a configuration stands for, or what is
/// wrong with it.
pub open spec fn startup(config: SystemConfig) -> Result<(Telemetry, Algorithm), Fault> {
    match entry_identities(split(config.available_servers@, ',')) {
        Ok(backends) => Ok(
            (Telemetry::empty(config.redis_url@).with_backends(backends), named(config.algorithm@)),
        ),
        Err(fault) => Err(Fault::Other(fault)),
    }
}

/// Reads the list of backends of a configuration: entries `url$weight`,
/// separated by commas. The first entry that is wrong fails the reading.
pub fn parse_servers(available_servers: &str) -> (r: Result<Vec<StaticServerData>, Error>)
    ensures
        match r {
            Ok(servers) => entry_identities(split(available_servers@, ',')) == Ok::<
                Seq<(Seq<char>, u32)>,
                Seq<char>,
            >(identities(servers@)),
            Err(e) => entry_identities(split(available_servers@, ',')) matches Err(fault) && e@
                == Fault::Other(fault),
        },
{
    let pieces = split_at_each(available_servers, ',');
    let ghost entries = texts(pieces@);
    let n = pieces.len();
    let mut servers: Vec<StaticServerData> = Vec::new();
    let mut i: usize = 0;
    proof {
        assert(entries.take(0) =~= Seq::<Seq<char>>::empty());
        assert(identities(servers@) =~= Seq::<(Seq<char>, u32)>::empty());
    }
    while i < n
        invariant
            i <= n,
            n == pieces@.len(),
            entries == texts(pieces@),
            entries == split(available_servers@, ','),
            entry_identities(entries.take(i as int)) == Ok::<Seq<(Seq<char>, u32)>, Seq<char>>(
                identities(servers@),
            ),
        decreases n - i,
    {
        let ghost before = identities(servers@);
        proof {
            lemma_take_next(entries, i as int);
        }
        match StaticServerData::new(pieces[i].as_str()) {
            Ok(data) => {
                servers.push(data);
                proof {
                    assert(identities(servers@) =~= before.push((data.url@, data.weight)));
                }
            },
            Err(e) => {
                proof {
                    lemma_gathered_fails(entries, read_entry(), i + 1);
                }
                return Err(e);
            },
        }
        i += 1;
    }
    proof {
        lemma_take_all(entries);
    }
    Ok(servers)
}

impl State {
    /// The state that a configuration stands for: the store with the
    /// configured backends registered, and the configured policy.
    pub fn new(config: &SystemConfig) -> (r: Result<Self, Error>)
        ensures
            match r {
                Ok(state) => startup(*config) == Ok::<(Telemetry, Algorithm), Fault>(
                    (state.redis_conn@, state.algorithm),
                ),
                Err(e) => startup(*config) == Err::<(Telemetry, Algorithm), Fault>(e@),
            },
    {
        let available_servers = match parse_servers(config.available_servers.as_str()) {
            Ok(servers) => servers,
            Err(e) => {
                return Err(e);
            },
        };
        let redis_conn = match RedisClient::init_redis(
            config.redis_url.as_str(),
            available_servers,
        ) {
            Ok(client) => client,
            Err(e) => {
                return Err(e);
            },
        };
        Ok(State { redis_conn, algorithm: Algorithm::from(config.algorithm.clone()) })
    }
}

} // verus!

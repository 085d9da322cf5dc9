//! The telemetry store, owned in process: the registered backends, the load,
//! weight, mean latency and health of each, and its rolling latency samples,
//! under the keys `server_url`, `server_load`, `server_weights`,
//! `server_latency`, `server_health` and the backend's own URL.

use crate::db::samples::{latest, SampleWindow};
use crate::error::Error;
use crate::json::{json_members, json_quoted, quoted};
use crate::middleware::server::{identity_json, json_identity, ServerClient, StaticServerData};
use crate::sequence::{gathered, lemma_gathered_fails, lemma_take_all, lemma_take_next};
use crate::origin::url_normal_form;
use crate::table::Table;
use vstd::prelude::*;
use vstd::string::*;

verus! {

/// What the store holds.
pub struct Telemetry {
    /// Where the store is said to live.
    pub endpoint: Seq<char>,
    /// `server_url`: the registered backends, each as JSON text.
    pub server_url: Seq<Seq<char>>,
    /// `server_load`: the requests in flight per backend.
    pub server_load: Map<Seq<char>, u32>,
    /// `server_weights`: the weight per backend.
    pub server_weights: Map<Seq<char>, u32>,
    /// `server_latency`: the mean latency per backend, in milliseconds.
    pub server_latency: Map<Seq<char>, u128>,
    /// `server_health`: whether the last probe of the backend succeeded.
    pub server_health: Map<Seq<char>, bool>,
    /// The latency samples per backend, oldest first, in milliseconds.
    pub samples: Map<Seq<char>, Seq<u128>>,
    /// The plain keys and their values.
    pub values: Map<Seq<char>, Seq<char>>,
}

impl Telemetry {
    /// A store that holds nothing.
    pub open spec fn empty(endpoint: Seq<char>) -> Telemetry {
        Telemetry {
            endpoint,
            server_url: Seq::empty(),
            server_load: Map::empty(),
            server_weights: Map::empty(),
            server_latency: Map::empty(),
            server_health: Map::empty(),
            samples: Map::empty(),
            values: Map::empty(),
        }
    }

    /// The load of a backend; a backend that was never loaded has load 0.
    pub open spec fn load_of(self, url: Seq<char>) -> int {
        if self.server_load.contains_key(url) {
            self.server_load[url] as int
        } else {
            0
        }
    }

    /// The samples of a backend; a backend that was never measured has none.
    pub open spec fn samples_of(self, url: Seq<char>) -> Seq<u128> {
        if self.samples.contains_key(url) {
            self.samples[url]
        } else {
            Seq::empty()
        }
    }

    /// The store after one backend was registered: its identity is appended
    /// to `server_url` and its weight is set.
    pub open spec fn with_backend(self, url: Seq<char>, weight: u32) -> Telemetry {
        Telemetry {
            server_url: self.server_url.push(identity_json(json_quoted(url), weight)),
            server_weights: self.server_weights.insert(url, weight),
            ..self
        }
    }

    /// The store after the backends were registered in turn.
    pub open spec fn with_backends(self, backends: Seq<(Seq<char>, u32)>) -> Telemetry
        decreases backends.len(),
    {
        if backends.len() == 0 {
            self
        } else {
            self.with_backends(backends.drop_last()).with_backend(
                backends.last().0,
                backends.last().1,
            )
        }
    }
}

/// The identities of a list of backends.
pub open spec fn identities(backends: Seq<StaticServerData>) -> Seq<(Seq<char>, u32)> {
    Seq::new(backends.len(), |i: int| (backends[i].url@, backends[i].weight))
}

/// The URL of the backend that one entry of `server_url` stands for, or what
/// is wrong with the entry.
pub open spec fn backend_url(entry: Seq<char>) -> Result<Seq<char>, Seq<char>> {
    match json_identity(entry) {
        Ok((url, _)) => Ok(url),
        Err(fault) => Err(fault),
    }
}

/// How one entry of `server_url` is read.
pub open spec fn read_backend() -> spec_fn(Seq<char>) -> Result<Seq<char>, Seq<char>> {
    |entry: Seq<char>| backend_url(entry)
}

/// The URLs of the backends that the entries of `server_url` stand for, or
/// what is wrong with the first entry that stands for none.
pub open spec fn backends_of(entries: Seq<Seq<char>>) -> Result<Seq<Seq<char>>, Seq<char>> {
    gathered(entries, read_backend())
}

/// The URLs of a list of backends.
pub open spec fn urls_of(backends: Seq<ServerClient>) -> Seq<Seq<char>> {
    Seq::new(backends.len(), |i: int| backends[i].url@)
}

/// What is wrong with a load that would no longer fit.
pub open spec fn overflow_fault() -> Seq<char> {
    "increment or decrement would overflow"@
}

/// What is wrong with a mean latency that does not fit in 32 bits.
pub open spec fn range_fault() -> Seq<char> {
    "number too large to fit in target type"@
}

/// The mean latencies in 32 bits.
pub open spec fn narrowed(means: Map<Seq<char>, u128>) -> Map<Seq<char>, u32> {
    Map::new(|k: Seq<char>| means.contains_key(k), |k: Seq<char>| means[k] as u32)
}

/// Whether every mean latency fits in 32 bits.
pub open spec fn narrow(means: Map<Seq<char>, u128>) -> bool {
    forall|k: Seq<char>| #[trigger] means.contains_key(k) ==> means[k] <= u32::MAX
}

/// The client of the telemetry store. It owns the store's contents.
#[derive(Debug)]
pub struct RedisClient {
    endpoint: String,
    server_url: Vec<String>,
    server_load: Table<u32>,
    server_weights: Table<u32>,
    server_latency: Table<u128>,
    server_health: Table<bool>,
    samples: Table<SampleWindow>,
    values: Table<String>,
}

impl View for RedisClient {
    type V = Telemetry;

    /// What the store holds.
    closed spec fn view(&self) -> Telemetry {
        Telemetry {
            endpoint: self.endpoint@,
            server_url: Seq::new(self.server_url@.len(), |i: int| self.server_url@[i]@),
            server_load: self.server_load@,
            server_weights: self.server_weights@,
            server_latency: self.server_latency@,
            server_health: self.server_health@,
            samples: Map::new(
                |k: Seq<char>| self.samples@.contains_key(k),
                |k: Seq<char>| self.samples@[k]@,
            ),
            values: Map::new(
                |k: Seq<char>| self.values@.contains_key(k),
                |k: Seq<char>| self.values@[k]@,
            ),
        }
    }
}

impl RedisClient {
    /// A store at `redis_url` that holds nothing.
    pub fn new(redis_url: &str) -> (client: Self)
        ensures
            client@ == Telemetry::empty(redis_url@),
    {
        let client = RedisClient {
            endpoint: String::from_str(redis_url),
            server_url: Vec::new(),
            server_load: Table::new(),
            server_weights: Table::new(),
            server_latency: Table::new(),
            server_health: Table::new(),
            samples: Table::new(),
            values: Table::new(),
        };
        proof {
            let t = client@;
            let e = Telemetry::empty(redis_url@);
            assert(t.server_url =~= e.server_url);
            assert(t.samples =~= e.samples);
            assert(t.values =~= e.values);
        }
        client
    }

    /// Where the store is said to live.
    pub fn endpoint(&self) -> (url: &str)
        ensures
            url@ == self@.endpoint,
    {
        self.endpoint.as_str()
    }

    /// A store at `redis_url` with the backends registered: each backend's
    /// identity in `server_url`, its weight in `server_weights`. An in-process
    /// store is always there, so this never fails.
    pub fn init_redis(redis_url: &str, available_servers: Vec<StaticServerData>) -> (r: Result<
        Self,
        Error,
    >)
        ensures
            r matches Ok(client) && client@ == Telemetry::empty(redis_url@).with_backends(
                identities(available_servers@),
            ),
    {
        let mut client = Self::new(redis_url);
        client.register(&available_servers);
        Ok(client)
    }

    /// Registers the backends in turn: each backend's identity is appended
    /// to `server_url`, its weight is set in `server_weights`. Nothing is
    /// deduplicated.
    pub fn register(&mut self, backends: &Vec<StaticServerData>)
        ensures
            final(self)@ == old(self)@.with_backends(identities(backends@)),
    {
        let ghost ids = identities(backends@);
        let ghost start = self@;
        let n = backends.len();
        let mut i: usize = 0;
        proof {
            assert(ids.take(0) =~= Seq::<(Seq<char>, u32)>::empty());
        }
        while i < n
            invariant
                i <= n,
                n == backends@.len(),
                ids == identities(backends@),
                self@ == start.with_backends(ids.take(i as int)),
            decreases n - i,
        {
            let ghost before = self@;
            let text = StaticServerData::write_json(
                quoted(backends[i].url.as_str()).as_str(),
                backends[i].weight,
            );
            self.server_url.push(text);
            self.server_weights.insert(backends[i].url.clone(), backends[i].weight);
            proof {
                lemma_take_next(ids, i as int);
                let expected = before.with_backend(ids[i as int].0, ids[i as int].1);
                assert(self@.server_url =~= expected.server_url);
                assert(self@.samples =~= expected.samples);
                assert(self@.values =~= expected.values);
            }
            i += 1;
        }
        proof {
            lemma_take_all(ids);
        }
    }

    /// Puts `value` under the plain key `key`.
    pub fn set(&mut self, key: &str, value: &str) -> (r: Result<(), Error>)
        ensures
            r is Ok,
            final(self)@ == (Telemetry {
                values: old(self)@.values.insert(key@, value@),
                ..old(self)@
            }),
    {
        let ghost before = self@;
        self.values.insert(String::from_str(key), String::from_str(value));
        proof {
            let expected = Telemetry { values: before.values.insert(key@, value@), ..before };
            assert(self@.values =~= expected.values);
            assert(self@.server_url =~= expected.server_url);
            assert(self@.samples =~= expected.samples);
        }
        Ok(())
    }

    /// The value under the plain key `key`, if there is one.
    pub fn get(&self, key: &str) -> (r: Result<Option<String>, Error>)
        ensures
            match r {
                Ok(Some(value)) => self@.values.contains_key(key@) && self@.values[key@]
                    == value@,
                Ok(None) => !self@.values.contains_key(key@),
                Err(_) => false,
            },
    {
        match self.values.get(key) {
            Some(value) => Ok(Some(value.clone())),
            None => Ok(None),
        }
    }

    /// Takes the plain key `key` out of the store and says how many keys
    /// went: 1 or 0.
    pub fn delete(&mut self, key: &str) -> (r: Result<usize, Error>)
        ensures
            match r {
                Ok(gone) => gone == (if old(self)@.values.contains_key(key@) {
                    1usize
                } else {
                    0usize
                }),
                Err(_) => false,
            },
            final(self)@ == (Telemetry { values: old(self)@.values.remove(key@), ..old(self)@ }),
    {
        let ghost before = self@;
        let gone = self.values.remove(key);
        proof {
            let expected = Telemetry { values: before.values.remove(key@), ..before };
            assert(self@.values =~= expected.values);
            assert(self@.server_url =~= expected.server_url);
            assert(self@.samples =~= expected.samples);
        }
        match gone {
            Some(_) => Ok(1),
            None => Ok(0),
        }
    }

    /// Appends `value` to `server_url`.
    pub fn update_server_url(&mut self, value: &str) -> (r: Result<(), Error>)
        ensures
            r is Ok,
            final(self)@ == (Telemetry {
                server_url: old(self)@.server_url.push(value@),
                ..old(self)@
            }),
    {
        let ghost before = self@;
        self.server_url.push(String::from_str(value));
        proof {
            let expected = Telemetry { server_url: before.server_url.push(value@), ..before };
            assert(self@.values =~= expected.values);
            assert(self@.server_url =~= expected.server_url);
            assert(self@.samples =~= expected.samples);
        }
        Ok(())
    }

    /// The registered backends, in the order of `server_url`. An entry that
    /// stands for no backend fails the whole reading.
    pub fn get_all_server_url(&self) -> (r: Result<Vec<ServerClient>, Error>)
        ensures
            match r {
                Ok(backends) => backends_of(self@.server_url) == Ok::<Seq<Seq<char>>, Seq<char>>(
                    urls_of(backends@),
                ),
                Err(Error::Other(fault)) => backends_of(self@.server_url) == Err::<
                    Seq<Seq<char>>,
                    Seq<char>,
                >(fault@),
                Err(_) => false,
            },
    {
        let ghost entries = self@.server_url;
        let n = self.server_url.len();
        let mut backends: Vec<ServerClient> = Vec::new();
        let mut i: usize = 0;
        proof {
            assert(entries.take(0) =~= Seq::<Seq<char>>::empty());
            assert(urls_of(backends@) =~= Seq::<Seq<char>>::empty());
        }
        while i < n
            invariant
                i <= n,
                n == self.server_url@.len(),
                entries == self@.server_url,
                backends_of(entries.take(i as int)) == Ok::<Seq<Seq<char>>, Seq<char>>(
                    urls_of(backends@),
                ),
            decreases n - i,
        {
            let ghost before = urls_of(backends@);
            proof {
                lemma_take_next(entries, i as int);
            }
            match StaticServerData::from_json(self.server_url[i].clone()) {
                Ok(data) => {
                    backends.push(ServerClient { url: data.url });
                    proof {
                        assert(urls_of(backends@) =~= before.push(data.url@));
                    }
                },
                Err(e) => {
                    proof {
                        lemma_gathered_fails(entries, read_backend(), i + 1);
                    }
                    return Err(e);
                },
            }
            i += 1;
        }
        proof {
            lemma_take_all(entries);
        }
        Ok(backends)
    }

    /// Adds `value` to the load of the backend `key`; a backend that was
    /// never loaded starts from 0. Fails, with the load as it was, where the
    /// sum does not fit.
    pub fn update_server_load(&mut self, key: &str, value: u32) -> (r: Result<(), Error>)
        ensures
            match r {
                Ok(()) => old(self)@.load_of(key@) + value <= u32::MAX && final(self)@
                    == (Telemetry {
                    server_load: old(self)@.server_load.insert(
                        key@,
                        (old(self)@.load_of(key@) + value) as u32,
                    ),
                    ..old(self)@
                }),
                Err(Error::RedisError(fault)) => old(self)@.load_of(key@) + value > u32::MAX
                    && fault@ == overflow_fault() && final(self)@ == old(self)@,
                Err(_) => false,
            },
    {
        let ghost before = self@;
        let current: u32 = match self.server_load.get(key) {
            Some(load) => *load,
            None => 0,
        };
        if value > u32::MAX - current {
            return Err(
                Error::RedisError(String::from_str("increment or decrement would overflow")),
            );
        }
        self.server_load.insert(String::from_str(key), current + value);
        proof {
            let expected = Telemetry {
                server_load: before.server_load.insert(key@, (before.load_of(key@) + value) as u32),
                ..before
            };
            assert(self@.values =~= expected.values);
            assert(self@.server_url =~= expected.server_url);
            assert(self@.samples =~= expected.samples);
        }
        Ok(())
    }

    /// The load of the backend `key`, if it was ever loaded.
    pub fn get_server_load(&self, key: &str) -> (r: Result<Option<u32>, Error>)
        ensures
            match r {
                Ok(Some(load)) => self@.server_load.contains_key(key@) && self@.server_load[key@]
                    == load,
                Ok(None) => !self@.server_load.contains_key(key@),
                Err(_) => false,
            },
    {
        match self.server_load.get(key) {
            Some(load) => Ok(Some(*load)),
            None => Ok(None),
        }
    }

    /// The load of every backend that was ever loaded.
    pub fn get_all_server_load(&self) -> (r: Result<Table<u32>, Error>)
        ensures
            match r {
                Ok(loads) => loads@ == self@.server_load,
                Err(_) => false,
            },
    {
        Ok(self.server_load.snapshot())
    }

    /// Appends the sample `value` to the samples of the backend `key`. Where
    /// the window was full, its oldest sample goes.
    pub fn update_server_latency_record(&mut self, key: &str, value: u128) -> (r: Result<
        (),
        Error,
    >)
        ensures
            r is Ok,
            final(self)@ == (Telemetry {
                samples: old(self)@.samples.insert(
                    key@,
                    latest(old(self)@.samples_of(key@).push(value)),
                ),
                ..old(self)@
            }),
    {
        let ghost before = self@;
        let window = match self.samples.get(key) {
            Some(window) => window.with(value),
            None => SampleWindow::new().with(value),
        };
        self.samples.insert(String::from_str(key), window);
        proof {
            let expected = Telemetry {
                samples: before.samples.insert(key@, latest(before.samples_of(key@).push(value))),
                ..before
            };
            assert(self@.values =~= expected.values);
            assert(self@.server_url =~= expected.server_url);
            assert(self@.samples =~= expected.samples);
        }
        Ok(())
    }

    /// The samples of the backend `key`, oldest first: at most
    /// `SAMPLE_WINDOW` of them.
    pub fn get_server_latency_record(&self, key: &str) -> (r: Result<Vec<u128>, Error>)
        ensures
            match r {
                Ok(samples) => samples@ == self@.samples_of(key@) && samples@.len()
                    <= crate::db::samples::SAMPLE_WINDOW,
                Err(_) => false,
            },
    {
        match self.samples.get(key) {
            Some(window) => Ok(window.to_vec()),
            None => Ok(Vec::new()),
        }
    }

    /// The samples of every registered backend, under its URL. Fails as
    /// `get_all_server_url` does.
    pub fn get_servers_latency_record(&self) -> (r: Result<Table<Vec<u128>>, Error>)
        ensures
            match r {
                Ok(records) => backends_of(self@.server_url) matches Ok(urls) && (forall|
                    k: Seq<char>,
                |
                    records@.contains_key(k) <==> urls.contains(k)) && (forall|k: Seq<char>| #[trigger]
                    records@.contains_key(k) ==> records@[k]@ == self@.samples_of(k)),
                Err(Error::Other(fault)) => backends_of(self@.server_url) == Err::<
                    Seq<Seq<char>>,
                    Seq<char>,
                >(fault@),
                Err(_) => false,
            },
    {
        let backends = match self.get_all_server_url() {
            Ok(backends) => backends,
            Err(e) => {
                return Err(e);
            },
        };
        let ghost urls = urls_of(backends@);
        let n = backends.len();
        let mut records: Table<Vec<u128>> = Table::new();
        let mut i: usize = 0;
        while i < n
            invariant
                i <= n,
                n == backends@.len(),
                urls == urls_of(backends@),
                forall|k: Seq<char>| records@.contains_key(k) <==> urls.take(i as int).contains(k),
                forall|k: Seq<char>| #[trigger]
                    records@.contains_key(k) ==> records@[k]@ == self@.samples_of(k),
            decreases n - i,
        {
            let url = backends[i].url.clone();
            let samples = match self.get_server_latency_record(url.as_str()) {
                Ok(samples) => samples,
                Err(e) => {
                    return Err(e);
                },
            };
            let ghost before = records@;
            records.insert(url, samples);
            proof {
                lemma_take_next(urls, i as int);
            }
            i += 1;
        }
        proof {
            lemma_take_all(urls);
        }
        Ok(records)
    }

    /// Sets the mean latency of the backend `key`.
    pub fn update_server_mean_latency(&mut self, key: &str, value: u128) -> (r: Result<
        (),
        Error,
    >)
        ensures
            r is Ok,
            final(self)@ == (Telemetry {
                server_latency: old(self)@.server_latency.insert(key@, value),
                ..old(self)@
            }),
    {
        let ghost before = self@;
        self.server_latency.insert(String::from_str(key), value);
        proof {
            let expected = Telemetry {
                server_latency: before.server_latency.insert(key@, value),
                ..before
            };
            assert(self@.values =~= expected.values);
            assert(self@.server_url =~= expected.server_url);
            assert(self@.samples =~= expected.samples);
        }
        Ok(())
    }

    /// The mean latency of every backend that has one, in 32 bits. Fails
    /// where a mean does not fit.
    pub fn get_all_server_mean_latency(&self) -> (r: Result<Table<u32>, Error>)
        ensures
            match r {
                Ok(means) => narrow(self@.server_latency) && means@ == narrowed(
                    self@.server_latency,
                ),
                Err(Error::RedisError(fault)) => !narrow(self@.server_latency) && fault@
                    == range_fault(),
                Err(_) => false,
            },
    {
        let n = self.server_latency.len();
        let ghost keys = self.server_latency.keys();
        let ghost all = self.server_latency@;
        let mut means: Table<u32> = Table::new();
        let mut i: usize = 0;
        while i < n
            invariant
                i <= n,
                n == keys.len(),
                keys == self.server_latency.keys(),
                all == self.server_latency@,
                all == self@.server_latency,
                self.server_latency.listed(),
                forall|k: Seq<char>| means@.contains_key(k) <==> keys.take(i as int).contains(k),
                forall|k: Seq<char>| #[trigger]
                    means@.contains_key(k) ==> all[k] <= u32::MAX && means@[k] == all[k] as u32,
            decreases n - i,
        {
            let mean = *self.server_latency.value_at(i);
            if mean > 0xffff_ffff {
                proof {
                    assert(all.contains_key(keys[i as int]));
                }
                return Err(
                    Error::RedisError(String::from_str("number too large to fit in target type")),
                );
            }
            let ghost before = means@;
            means.insert(self.server_latency.key_at(i).clone(), mean as u32);
            proof {
                lemma_take_next(keys, i as int);
            }
            i += 1;
        }
        proof {
            lemma_take_all(keys);
            assert forall|k: Seq<char>| #[trigger] all.contains_key(k) implies all[k]
                <= u32::MAX by {
                assert(keys.contains(k));
                assert(means@.contains_key(k));
            }
            assert(means@ =~= narrowed(all));
        }
        Ok(means)
    }

    /// Sets the health of the backend `key`: whether its last probe
    /// succeeded.
    pub fn update_server_health(&mut self, key: &str, value: bool) -> (r: Result<(), Error>)
        ensures
            r is Ok,
            final(self)@ == (Telemetry {
                server_health: old(self)@.server_health.insert(key@, value),
                ..old(self)@
            }),
    {
        let ghost before = self@;
        self.server_health.insert(String::from_str(key), value);
        proof {
            let expected = Telemetry {
                server_health: before.server_health.insert(key@, value),
                ..before
            };
            assert(self@.values =~= expected.values);
            assert(self@.server_url =~= expected.server_url);
            assert(self@.samples =~= expected.samples);
        }
        Ok(())
    }

    /// The health of the backend `key`, if it was ever probed.
    pub fn get_server_health(&self, key: &str) -> (r: Result<Option<bool>, Error>)
        ensures
            match r {
                Ok(Some(healthy)) => self@.server_health.contains_key(key@)
                    && self@.server_health[key@] == healthy,
                Ok(None) => !self@.server_health.contains_key(key@),
                Err(_) => false,
            },
    {
        match self.server_health.get(key) {
            Some(healthy) => Ok(Some(*healthy)),
            None => Ok(None),
        }
    }

    /// The health of every backend that was ever probed.
    pub fn get_all_server_health(&self) -> (r: Result<Table<bool>, Error>)
        ensures
            match r {
                Ok(health) => health@ == self@.server_health,
                Err(_) => false,
            },
    {
        Ok(self.server_health.snapshot())
    }

    /// Sets the weight of the backend `key`.
    pub fn update_server_weight(&mut self, key: &str, value: u32) -> (r: Result<(), Error>)
        ensures
            r is Ok,
            final(self)@ == (Telemetry {
                server_weights: old(self)@.server_weights.insert(key@, value),
                ..old(self)@
            }),
    {
        let ghost before = self@;
        self.server_weights.insert(String::from_str(key), value);
        proof {
            let expected = Telemetry {
                server_weights: before.server_weights.insert(key@, value),
                ..before
            };
            assert(self@.values =~= expected.values);
            assert(self@.server_url =~= expected.server_url);
            assert(self@.samples =~= expected.samples);
        }
        Ok(())
    }

    /// The weight of every backend that has one.
    pub fn get_all_server_weights(&self) -> (r: Result<Table<u32>, Error>)
        ensures
            match r {
                Ok(weights) => weights@ == self@.server_weights,
                Err(_) => false,
            },
    {
        Ok(self.server_weights.snapshot())
    }
}

/// Whether the identity `backend` reads back from the JSON text that is
/// written for it: its weight is at least 1, its URL is an absolute URL, and
/// `serde_json` finds in the text the URL and the weight that were written.
pub open spec fn reads_back(backend: (Seq<char>, u32)) -> bool {
    &&& backend.1 >= 1
    &&& url_normal_form(backend.0) is Some
    &&& json_members(identity_json(json_quoted(backend.0), backend.1), "url"@, "weight"@) == (
        Some(backend.0),
        Some(backend.1 as u64),
    )
}

/// The URLs in normal form of the backends.
pub open spec fn normal_forms(backends: Seq<(Seq<char>, u32)>) -> Seq<Seq<char>> {
    Seq::new(backends.len(), |i: int| url_normal_form(backends[i].0)->Some_0)
}

/// The backends that are registered are the backends that are listed: where
/// the store lists `urls` and each of `backends` reads back from the JSON
/// that is written for it, the store with `backends` registered lists `urls`
/// and then the backends, each by its URL in normal form.
pub proof fn lemma_registered_are_listed(
    store: Telemetry,
    urls: Seq<Seq<char>>,
    backends: Seq<(Seq<char>, u32)>,
)
    requires
        backends_of(store.server_url) == Ok::<Seq<Seq<char>>, Seq<char>>(urls),
        forall|i: int| 0 <= i < backends.len() ==> reads_back(#[trigger] backends[i]),
    ensures
        backends_of(store.with_backends(backends).server_url) == Ok::<Seq<Seq<char>>, Seq<char>>(
            urls + normal_forms(backends),
        ),
    decreases backends.len(),
{
    if backends.len() == 0 {
        assert(urls + normal_forms(backends) =~= urls);
    } else {
        let earlier = backends.drop_last();
        let last = backends.last();
        lemma_registered_are_listed(store, urls, earlier);
        let held = store.with_backends(earlier).server_url;
        let entry = identity_json(json_quoted(last.0), last.1);
        let entries = store.with_backends(backends).server_url;
        assert(entries == held.push(entry));
        assert(entries.drop_last() =~= held);
        assert(reads_back(last));
        assert(backend_url(entry) == Ok::<Seq<char>, Seq<char>>(url_normal_form(last.0)->Some_0));
        assert(urls + normal_forms(backends) =~= (urls + normal_forms(earlier)).push(
            url_normal_form(last.0)->Some_0,
        ));
    }
}

} // verus!

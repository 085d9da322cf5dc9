//! The dispatcher: what to do with a request before it is forwarded, and
//! what to record once the backend has answered.

use crate::algorithms::select::Algorithm;
use crate::config::State;
use crate::db::redis::Telemetry;
use crate::db::samples::latest;
use crate::error::{Error, Fault};
use crate::json::{json_rewritten, rewritten};
use crate::middleware::server::{
    body_view, ApiResponse, Method, ServerClient, UpstreamRequest,
};
use crate::origin::url_joined;
use crate::text::{starts_with, trim_start, trimmed_start};
use vstd::prelude::*;
use vstd::string::*;
use vstd::utf8::*;

verus! {

/// A request that is to be forwarded: the key of the selected backend in the
/// telemetry store, the backend, and the request to make of it.
#[derive(Debug)]
pub struct Forward {
    pub key: String,
    pub server: ServerClient,
    pub request: UpstreamRequest,
}

/// The most bytes of a request body that are held in memory.
pub const BODY_LIMIT: usize = 2097152;

/// Whether a body of which `held` bytes are held has room for `more`.
pub fn fits(held: usize, more: usize) -> (r: bool)
    ensures
        r == (held + more <= BODY_LIMIT),
{
    held <= BODY_LIMIT && more <= BODY_LIMIT - held
}

/// What the dispatcher decides for a request.
#[derive(Debug)]
pub enum Dispatch {
    /// The request is for the proxy itself and is served locally.
    Local,
    /// The request goes to a backend.
    Forward(Forward),
}

/// Whether a request for `uri` is for the proxy itself.
pub open spec fn is_local(uri: Seq<char>) -> bool {
    "/status"@.is_prefix_of(uri)
}

/// Whether a request for `uri` is for the proxy itself: its path begins
/// with `/status`.
pub fn is_self_route(uri: &str) -> (r: bool)
    ensures
        r == is_local(uri@),
{
    starts_with(uri, "/status")
}

/// The body that is forwarded for the body `raw`: none where there is none;
/// the JSON written anew where `raw` is JSON; else `raw` as it is.
pub open spec fn forwarded(raw: Seq<u8>) -> Option<Seq<u8>> {
    if raw.len() == 0 {
        None
    } else {
        match json_rewritten(raw) {
            Some(text) => Some(encode_utf8(text)),
            None => Some(raw),
        }
    }
}

/// The body that is forwarded for the body `raw`, given the JSON of `raw`
/// written anew, where `raw` is JSON.
pub fn capture(raw: Vec<u8>, json: Option<String>) -> (body: Option<Vec<u8>>)
    ensures
        body_view(body) == if raw@.len() == 0 {
            None
        } else {
            match json {
                Some(text) => Some(encode_utf8(text@)),
                None => Some(raw@),
            }
        },
{
    if raw.len() == 0 {
        None
    } else {
        match json {
            Some(text) => Some(text.as_str().as_bytes_vec()),
            None => Some(raw),
        }
    }
}

/// The body that is forwarded for the body `raw`.
pub fn forward_body(raw: Vec<u8>) -> (body: Option<Vec<u8>>)
    ensures
        body_view(body) == forwarded(raw@),
{
    let json = rewritten(raw.as_slice());
    capture(raw, json)
}

/// A request that is forwarded, as plain values: the key of the backend in
/// the store, the URL of the backend, and the method, the URL and the body
/// of the upstream request.
pub struct Sent {
    pub key: Seq<char>,
    pub url: Seq<char>,
    pub method: Method,
    pub target: Seq<char>,
    pub body: Option<Seq<u8>>,
}

/// What the dispatcher decides, as plain values.
pub enum Decision {
    Local,
    Forward(Sent),
}

impl View for Forward {
    type V = Sent;

    open spec fn view(&self) -> Sent {
        Sent {
            key: self.key@,
            url: self.server.url@,
            method: self.request.method,
            target: self.request.url@,
            body: body_view(self.request.body),
        }
    }
}

impl View for Dispatch {
    type V = Decision;

    open spec fn view(&self) -> Decision {
        match *self {
            Dispatch::Local => Decision::Local,
            Dispatch::Forward(forward) => Decision::Forward(forward@),
        }
    }
}

/// What the dispatcher answered, as plain values.
pub open spec fn decision_of(r: Result<Dispatch, Error>) -> Result<Decision, Fault> {
    match r {
        Ok(dispatch) => Ok(dispatch@),
        Err(e) => Err(e@),
    }
}

/// The method under which a request with the method named `name` is
/// forwarded, if it is.
pub open spec fn forwarded_method(name: Seq<char>) -> Option<Method> {
    if name == "GET"@ {
        Some(Method::Get)
    } else if name == "POST"@ {
        Some(Method::Post)
    } else {
        None
    }
}

/// What the dispatcher decides for a request, and the store that it leaves.
///
/// A request for the proxy itself is served locally. A method other than GET
/// and POST is refused. Else a backend is selected and the request reserved
/// with it; where that fails, the store is as it was. The request then goes
/// to the URL that the path and query, without their leading slashes, are
/// resolved to against the backend's URL; where they cannot be resolved the
/// request is refused, and the reservation stands.
pub open spec fn decided(
    policy: Algorithm,
    store: Telemetry,
    method: Seq<char>,
    uri: Seq<char>,
    body: Seq<u8>,
    location: Seq<char>,
) -> (Result<Decision, Fault>, Telemetry) {
    if is_local(uri) {
        (Ok(Decision::Local), store)
    } else {
        match forwarded_method(method) {
            None => (Err(Fault::MethodNotAllowed), store),
            Some(method) => match policy.outcome(store, location) {
                Err(fault) => (Err(fault), store),
                Ok(reserved) => (
                    match url_joined(reserved.url, trimmed_start(uri, '/')) {
                        Some(target) => Ok(
                            Decision::Forward(
                                Sent {
                                    key: reserved.key,
                                    url: reserved.url,
                                    method,
                                    target,
                                    body: forwarded(body),
                                },
                            ),
                        ),
                        None => Err(Fault::InvalidUrl),
                    },
                    reserved.store,
                ),
            },
        }
    }
}

/// Decides what to do with a request, in this order: a request for the proxy
/// itself is served locally; a method other than GET and POST is refused; a
/// backend is selected and the request reserved with it; the upstream
/// request is made up. Nothing is written to the store unless a backend was
/// selected.
pub fn request_route(state: &mut State, method: &str, uri: &str, body: Vec<u8>, location: &str) -> (r:
    Result<Dispatch, Error>)
    ensures
        final(state).algorithm == old(state).algorithm,
        (decision_of(r), final(state).redis_conn@) == decided(
            old(state).algorithm,
            old(state).redis_conn@,
            method@,
            uri@,
            body@,
            location@,
        ),
{
    if is_self_route(uri) {
        return Ok(Dispatch::Local);
    }
    let method = Method::from_name(method);
    match method {
        Method::Other => {
            return Err(Error::MethodNotAllowed);
        },
        _ => {},
    }
    let body = forward_body(body);
    let algorithm = state.algorithm;
    let (key, server) = match algorithm.select_backend(&mut state.redis_conn, location) {
        Ok(selected) => selected,
        Err(e) => {
            return Err(e);
        },
    };
    let route = trim_start(uri, '/');
    match server.handle_request(method, route, body) {
        Ok(request) => Ok(Dispatch::Forward(Forward { key, server, request })),
        Err(e) => Err(e),
    }
}

/// The store after the sample `ms` was recorded for the backend `url`.
pub open spec fn observed(store: Telemetry, url: Seq<char>, ms: u128) -> Telemetry {
    Telemetry {
        samples: store.samples.insert(url, latest(store.samples_of(url).push(ms))),
        ..store
    }
}

/// Records what came of a request that was forwarded to the backend `key`
/// and hands the outcome on as it is. An answer, of whatever status, adds the
/// elapsed milliseconds to the backend's samples; a failure adds nothing.
pub fn relay_response(
    state: &mut State,
    key: &str,
    outcome: Result<ApiResponse, Error>,
    elapsed_ms: u128,
) -> (r: Result<ApiResponse, Error>)
    ensures
        r == outcome,
        final(state).algorithm == old(state).algorithm,
        final(state).redis_conn@ == if outcome is Ok {
            observed(old(state).redis_conn@, key@, elapsed_ms)
        } else {
            old(state).redis_conn@
        },
{
    if outcome.is_ok() {
        let _ = state.redis_conn.update_server_latency_record(key, elapsed_ms);
    }
    outcome
}

} // verus!

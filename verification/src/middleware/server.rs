//! One backend: its identity, the requests made of it and what it answers.

use crate::error::Error;
use crate::json::{json_members, json_quoted, members, quoted, text_view};
use crate::origin::{join, normalize, url_joined, url_normal_form};
use crate::text::{
    chars_of, decimal_digits, decimal_text, decimal_u32, find_from, first_index,
    lemma_decimal_u32_round_trip, lemma_first_index_is, parse_u32, str_eq,
};
use vstd::prelude::*;
use vstd::string::*;

verus! {

/// The method of a request, as far as forwarding tells methods apart.
#[derive(Debug, Clone, Copy, PartialEq, Eq)]
pub enum Method {
    Get,
    Post,
    Other,
}

impl Method {
    /// The method that `name` names: `GET`, `POST`, or another.
    pub fn from_name(name: &str) -> (m: Method)
        ensures
            m == if name@ == "GET"@ {
                Method::Get
            } else if name@ == "POST"@ {
                Method::Post
            } else {
                Method::Other
            },
    {
        if str_eq(name, "GET") {
            Method::Get
        } else if str_eq(name, "POST") {
            Method::Post
        } else {
            Method::Other
        }
    }
}

/// What a backend answered: the status and the body.
#[derive(Debug, Clone, PartialEq, Eq)]
pub struct ApiResponse {
    pub status: u16,
    pub message: String,
}

/// Whether `status` is one of the 2xx.
pub open spec fn is_success(status: u16) -> bool {
    200 <= status < 300
}

/// Whether a probe that was answered with `reply`, or not at all, found health.
pub open spec fn is_healthy(reply: Option<u16>) -> bool {
    match reply {
        Some(status) => is_success(status),
        None => false,
    }
}

impl ApiResponse {
    /// An answer with this status and body.
    pub fn new(status: u16, message: String) -> (r: Self)
        ensures
            r.status == status,
            r.message == message,
    {
        ApiResponse { status, message }
    }

    /// Whether the status is one of the 2xx.
    pub fn is_success(&self) -> (r: bool)
        ensures
            r == is_success(self.status),
    {
        200 <= self.status && self.status < 300
    }
}

/// A request to make of a backend: where it goes and what it carries.
#[derive(Debug, Clone, PartialEq, Eq)]
pub struct UpstreamRequest {
    pub method: Method,
    pub url: String,
    pub body: Option<Vec<u8>>,
}

/// The bytes of a body, if there is one.
pub open spec fn body_view(body: Option<Vec<u8>>) -> Option<Seq<u8>> {
    match body {
        Some(bytes) => Some(bytes@),
        None => None,
    }
}

impl UpstreamRequest {
    /// The request that goes to `joined` with `method` and `body`, where the
    /// upstream URL could be made; else `InvalidUrl`.
    pub fn build(method: Method, joined: Option<String>, body: Option<Vec<u8>>) -> (r: Result<
        Self,
        Error,
    >)
        ensures
            match r {
                Ok(request) => joined == Some(request.url) && request.method == method
                    && request.body == body,
                Err(e) => e is InvalidUrl && joined is None,
            },
    {
        match joined {
            Some(url) => Ok(UpstreamRequest { method, url, body }),
            None => Err(Error::InvalidUrl),
        }
    }
}

/// The identity of a backend: its origin URL and its weight.
#[derive(Debug, Clone, PartialEq, Eq)]
pub struct StaticServerData {
    pub url: String,
    pub weight: u32,
}

/// What is wrong with an entry that holds no `$`.
pub open spec fn format_fault() -> Seq<char> {
    "Invalid server format, expected 'url$weight'"@
}

/// What is wrong with a weight that is no number, does not fit, or is 0.
pub open spec fn weight_fault() -> Seq<char> {
    "Invalid weight, expected a positive integer"@
}

/// What is wrong with a URL that is no absolute URL.
pub open spec fn url_fault() -> Seq<char> {
    "Invalid URL, expected an absolute URL"@
}

/// What is wrong with a stored identity that is no JSON object with a string
/// `url` and an integer `weight` of 32 bits.
pub open spec fn json_fault() -> Seq<char> {
    "Invalid server data, expected a JSON object with 'url' and 'weight'"@
}

/// The identity with the URL in normal form `url` and the weight `weight`,
/// or what is wrong: a weight of 0, or no URL.
pub open spec fn identity_of(url: Option<Seq<char>>, weight: u32) -> Result<
    (Seq<char>, u32),
    Seq<char>,
> {
    if weight == 0 {
        Err(weight_fault())
    } else {
        match url {
            Some(u) => Ok((u, weight)),
            None => Err(url_fault()),
        }
    }
}

/// The two parts of a configuration entry `url$weight`, cut at the first
/// `$`, with the weight read as a number; or what is wrong.
pub open spec fn entry_parts(entry: Seq<char>) -> Result<(Seq<char>, u32), Seq<char>> {
    let cut = first_index(entry, '$');
    if cut >= entry.len() {
        Err(format_fault())
    } else {
        match decimal_u32(entry.skip(cut + 1)) {
            Some(weight) => Ok((entry.take(cut), weight)),
            None => Err(weight_fault()),
        }
    }
}

/// The identity that a configuration entry `url$weight` stands for, or what
/// is wrong with the entry.
pub open spec fn entry_identity(entry: Seq<char>) -> Result<(Seq<char>, u32), Seq<char>> {
    match entry_parts(entry) {
        Ok((url, weight)) => identity_of(url_normal_form(url), weight),
        Err(fault) => Err(fault),
    }
}

/// The URL text and the weight that a stored identity holds, or what is
/// wrong with it.
pub open spec fn members_parts(url: Option<Seq<char>>, weight: Option<u64>) -> Result<
    (Seq<char>, u32),
    Seq<char>,
> {
    match (url, weight) {
        (Some(u), Some(w)) => if w <= u32::MAX {
            Ok((u, w as u32))
        } else {
            Err(json_fault())
        },
        _ => Err(json_fault()),
    }
}

/// The identity that the JSON text `data` stands for, or what is wrong with
/// it. The text is read as a JSON value and the two members are looked up in
/// it by name: other members are passed over, of members of one name the
/// last counts, and an array is no identity.
pub open spec fn json_identity(data: Seq<char>) -> Result<(Seq<char>, u32), Seq<char>> {
    let found = json_members(data, "url"@, "weight"@);
    match members_parts(found.0, found.1) {
        Ok((url, weight)) => identity_of(url_normal_form(url), weight),
        Err(fault) => Err(fault),
    }
}

/// The JSON text of the identity with this URL and weight, given the URL as
/// a JSON string.
pub open spec fn identity_json(quoted_url: Seq<char>, weight: u32) -> Seq<char> {
    "{\"url\":"@ + quoted_url + ",\"weight\":"@ + decimal_digits(weight as nat) + "}"@
}

/// An identity that is written as a configuration entry reads back as
/// itself, where its weight is at least 1 and its URL holds no `$` and is in
/// normal form already.
pub proof fn lemma_entry_round_trip(url: Seq<char>, weight: u32)
    requires
        weight >= 1,
        forall|i: int| 0 <= i < url.len() ==> url[i] != '$',
        url_normal_form(url) == Some(url),
    ensures
        entry_identity(url + seq!['$'] + decimal_digits(weight as nat)) == Ok::<
            (Seq<char>, u32),
            Seq<char>,
        >((url, weight)),
{
    let digits = decimal_digits(weight as nat);
    let entry = url + seq!['$'] + digits;
    let cut = url.len() as int;
    assert(entry[cut] == '$');
    assert forall|j: int| 0 <= j < cut implies entry[j] != '$' by {
        assert(entry[j] == url[j]);
    }
    lemma_first_index_is(entry, '$', cut);
    assert(entry.take(cut) =~= url);
    assert(entry.skip(cut + 1) =~= digits);
    lemma_decimal_u32_round_trip(weight);
}

/// Whether `r` is the outcome `expected`, with the fault carried as
/// `Error::Other`.
pub open spec fn identity_result(
    r: Result<StaticServerData, Error>,
    expected: Result<(Seq<char>, u32), Seq<char>>,
) -> bool {
    match r {
        Ok(data) => expected == Ok::<(Seq<char>, u32), Seq<char>>((data.url@, data.weight)),
        Err(Error::Other(fault)) => expected == Err::<(Seq<char>, u32), Seq<char>>(fault@),
        Err(_) => false,
    }
}

fn other(fault: &str) -> (e: Error)
    ensures
        e matches Error::Other(m) && m@ == fault@,
{
    Error::Other(String::from_str(fault))
}

impl StaticServerData {
    /// Cuts a configuration entry `url$weight` at its first `$` and reads
    /// the weight.
    pub fn split_entry(entry: &str) -> (r: Result<(String, u32), Error>)
        ensures
            match r {
                Ok((url, weight)) => entry_parts(entry@) == Ok::<(Seq<char>, u32), Seq<char>>(
                    (url@, weight),
                ),
                Err(Error::Other(fault)) => entry_parts(entry@) == Err::<
                    (Seq<char>, u32),
                    Seq<char>,
                >(fault@),
                Err(_) => false,
            },
    {
        let text = chars_of(entry);
        let n = text.len();
        proof {
            assert(text@.skip(0) =~= text@);
        }
        let cut = find_from(&text, 0, '$');
        if cut >= n {
            return Err(other("Invalid server format, expected 'url$weight'"));
        }
        let url = entry.substring_char(0, cut);
        let digits = entry.substring_char(cut + 1, n);
        proof {
            assert(entry@.subrange(0, cut as int) =~= entry@.take(cut as int));
            assert(entry@.subrange(cut + 1, n as int) =~= entry@.skip(cut + 1));
        }
        match parse_u32(digits) {
            Some(weight) => Ok((String::from_str(url), weight)),
            None => Err(other("Invalid weight, expected a positive integer")),
        }
    }

    /// The identity with the URL `url`, already in normal form, and the
    /// weight `weight`. A weight of 0 is refused, and so is a missing URL.
    pub fn from_parts(url: Option<String>, weight: u32) -> (r: Result<Self, Error>)
        ensures
            identity_result(r, identity_of(text_view(url), weight)),
    {
        if weight == 0 {
            return Err(other("Invalid weight, expected a positive integer"));
        }
        match url {
            Some(url) => Ok(StaticServerData { url, weight }),
            None => Err(other("Invalid URL, expected an absolute URL")),
        }
    }

    /// Reads a configuration entry `url$weight`. The URL is kept in its
    /// normal form.
    pub fn new(url_and_weight: &str) -> (r: Result<Self, Error>)
        ensures
            identity_result(r, entry_identity(url_and_weight@)),
    {
        match Self::split_entry(url_and_weight) {
            Ok((url, weight)) => Self::from_parts(normalize(url.as_str()), weight),
            Err(e) => Err(e),
        }
    }

    /// The URL text and the weight that were read out of a stored identity,
    /// where both are there and the weight fits.
    pub fn members(url: Option<String>, weight: Option<u64>) -> (r: Result<(String, u32), Error>)
        ensures
            match r {
                Ok((u, w)) => members_parts(text_view(url), weight) == Ok::<
                    (Seq<char>, u32),
                    Seq<char>,
                >((u@, w)),
                Err(Error::Other(fault)) => members_parts(text_view(url), weight) == Err::<
                    (Seq<char>, u32),
                    Seq<char>,
                >(fault@),
                Err(_) => false,
            },
    {
        match (url, weight) {
            (Some(u), Some(w)) => {
                if w <= 0xffff_ffff {
                    Ok((u, w as u32))
                } else {
                    Err(other("Invalid server data, expected a JSON object with 'url' and 'weight'"))
                }
            },
            _ => Err(other("Invalid server data, expected a JSON object with 'url' and 'weight'")),
        }
    }

    /// Reads an identity from its JSON text: a JSON object with a string
    /// `url` and an integer `weight`. Other members are passed over, of
    /// members of one name the last counts, and an array is refused.
    pub fn from_json(data: String) -> (r: Result<Self, Error>)
        ensures
            identity_result(r, json_identity(data@)),
    {
        let (url, weight) = members(data.as_str(), "url", "weight");
        match Self::members(url, weight) {
            Ok((u, w)) => Self::from_parts(normalize(u.as_str()), w),
            Err(e) => Err(e),
        }
    }

    /// The JSON text of an identity whose URL is `quoted_url` as a JSON
    /// string.
    pub fn write_json(quoted_url: &str, weight: u32) -> (text: String)
        ensures
            text@ == identity_json(quoted_url@, weight),
    {
        let mut text = String::from_str("{\"url\":");
        text.append(quoted_url);
        text.append(",\"weight\":");
        text.append(decimal_text(weight).as_str());
        text.append("}");
        text
    }

    /// The identity as JSON text. Every identity can be written.
    pub fn static_data(self) -> (r: Result<String, Error>)
        ensures
            r matches Ok(text) && text@ == identity_json(json_quoted(self.url@), self.weight),
    {
        Ok(Self::write_json(quoted(self.url.as_str()).as_str(), self.weight))
    }

    /// The identity as a configuration entry `url$weight`.
    pub fn to_entry(&self) -> (text: String)
        ensures
            text@ == self.url@ + seq!['$'] + decimal_digits(self.weight as nat),
    {
        proof {
            reveal_strlit("$");
            assert("$"@ =~= seq!['$']);
        }
        let mut text = self.url.clone();
        text.append("$");
        text.append(decimal_text(self.weight).as_str());
        text
    }
}

/// A backend as the dispatcher sees it: the origin URL to forward to.
#[derive(Debug, Clone, PartialEq, Eq)]
pub struct ServerClient {
    pub url: String,
}

impl From<StaticServerData> for ServerClient {
    fn from(value: StaticServerData) -> (r: Self) {
        ServerClient { url: value.url }
    }
}

impl vstd::std_specs::convert::FromSpecImpl<StaticServerData> for ServerClient {
    open spec fn obeys_from_spec() -> bool {
        true
    }

    open spec fn from_spec(value: StaticServerData) -> Self {
        ServerClient { url: value.url }
    }
}

impl ServerClient {
    /// The request that forwards `route` to this backend. Only GET and POST
    /// are forwarded; another method is refused before the URL is looked at.
    pub fn handle_request(&self, method: Method, route: &str, body: Option<Vec<u8>>) -> (r: Result<
        UpstreamRequest,
        Error,
    >)
        ensures
            match r {
                Ok(request) => method != Method::Other && url_joined(self.url@, route@) == Some(
                    request.url@,
                ) && request.method == method && request.body == body,
                Err(e) => if method == Method::Other {
                    e is MethodNotAllowed
                } else {
                    e is InvalidUrl && url_joined(self.url@, route@) is None
                },
            },
    {
        match method {
            Method::Get => self.get_request(route, body),
            Method::Post => self.post_request(route, body),
            Method::Other => Err(Error::MethodNotAllowed),
        }
    }

    /// The POST request that forwards `route` to this backend.
    pub fn post_request(&self, route: &str, body: Option<Vec<u8>>) -> (r: Result<
        UpstreamRequest,
        Error,
    >)
        ensures
            match r {
                Ok(request) => url_joined(self.url@, route@) == Some(request.url@)
                    && request.method == Method::Post && request.body == body,
                Err(e) => e is InvalidUrl && url_joined(self.url@, route@) is None,
            },
    {
        UpstreamRequest::build(Method::Post, join(self.url.as_str(), route), body)
    }

    /// The GET request that forwards `route` to this backend.
    pub fn get_request(&self, route: &str, body: Option<Vec<u8>>) -> (r: Result<
        UpstreamRequest,
        Error,
    >)
        ensures
            match r {
                Ok(request) => url_joined(self.url@, route@) == Some(request.url@)
                    && request.method == Method::Get && request.body == body,
                Err(e) => e is InvalidUrl && url_joined(self.url@, route@) is None,
            },
    {
        UpstreamRequest::build(Method::Get, join(self.url.as_str(), route), body)
    }

    /// The request that probes this backend: GET `/status`, without a body.
    pub fn status_request(&self) -> (r: Result<UpstreamRequest, Error>)
        ensures
            match r {
                Ok(request) => url_joined(self.url@, "/status"@) == Some(request.url@)
                    && request.method == Method::Get && request.body is None,
                Err(e) => e is InvalidUrl && url_joined(self.url@, "/status"@) is None,
            },
    {
        self.get_request("/status", None)
    }

    /// Whether a probe found the backend healthy: `joined` is the probe's
    /// URL, if one could be made, and `reply` the status that came back, if
    /// one came back.
    pub fn probe_outcome(joined: bool, reply: Option<u16>) -> (r: bool)
        ensures
            r == (joined && is_healthy(reply)),
    {
        match reply {
            Some(status) => joined && 200 <= status && status < 300,
            None => false,
        }
    }

    /// Whether the backend is healthy, given the status that its `/status`
    /// answered with, or `None` where the network failed. A backend whose
    /// probe URL cannot be made is unhealthy.
    pub fn is_available(&self, reply: Option<u16>) -> (r: bool)
        ensures
            r == (url_joined(self.url@, "/status"@) is Some && is_healthy(reply)),
    {
        Self::probe_outcome(self.status_request().is_ok(), reply)
    }
}

} // verus!

//! The errors of the dispatch core and the response that each becomes.

use crate::middleware::ApiResponse;
use vstd::prelude::*;
use vstd::string::*;

verus! {

/// What can go wrong while a request is dispatched.
#[derive(Debug, Clone, PartialEq, Eq)]
pub enum Error {
    /// A resource is missing.
    NotFound,
    /// The core could not decide: an unknown location tag, a reserved policy.
    InternalServerError,
    /// The caller is not allowed.
    Unauthorized,
    /// Unclassified: a URL that does not parse, the network, serialization.
    Other(String),
    /// The telemetry store refused, or holds what its schema forbids.
    RedisError(String),
    /// The method is neither GET nor POST.
    MethodNotAllowed,
    /// No upstream URL can be made of the backend's URL and the route.
    InvalidUrl,
    /// The backend's answer could not be read.
    InvalidResponse,
    /// The policy had no backend to choose from.
    NoServerAvailable,
}

/// An error with its detail as plain text.
pub enum Fault {
    NotFound,
    InternalServerError,
    Unauthorized,
    Other(Seq<char>),
    RedisError(Seq<char>),
    MethodNotAllowed,
    InvalidUrl,
    InvalidResponse,
    NoServerAvailable,
}

impl View for Error {
    type V = Fault;

    open spec fn view(&self) -> Fault {
        match *self {
            Error::NotFound => Fault::NotFound,
            Error::InternalServerError => Fault::InternalServerError,
            Error::Unauthorized => Fault::Unauthorized,
            Error::Other(detail) => Fault::Other(detail@),
            Error::RedisError(detail) => Fault::RedisError(detail@),
            Error::MethodNotAllowed => Fault::MethodNotAllowed,
            Error::InvalidUrl => Fault::InvalidUrl,
            Error::InvalidResponse => Fault::InvalidResponse,
            Error::NoServerAvailable => Fault::NoServerAvailable,
        }
    }
}

impl Error {
    /// The HTTP status that the client sees.
    pub open spec fn status(self) -> u16 {
        match self {
            Error::NotFound => 404,
            Error::Unauthorized => 401,
            Error::MethodNotAllowed => 405,
            Error::InvalidUrl => 400,
            Error::InternalServerError => 500,
            Error::Other(_) => 500,
            Error::RedisError(_) => 500,
            Error::InvalidResponse => 500,
            Error::NoServerAvailable => 500,
        }
    }

    /// The error in words.
    pub open spec fn text(self) -> Seq<char> {
        match self {
            Error::NotFound => "Not Found"@,
            Error::InternalServerError => "Internal Server Error"@,
            Error::Unauthorized => "Unauthorized"@,
            Error::Other(detail) => "Other: "@ + detail@,
            Error::RedisError(detail) => "Redis Error: "@ + detail@,
            Error::MethodNotAllowed => "Method Not Allowed"@,
            Error::InvalidUrl => "Invalid URL"@,
            Error::InvalidResponse => "Invalid Response"@,
            Error::NoServerAvailable => "No Server Available"@,
        }
    }

    /// What the client reads: the error in words, but for the errors of
    /// status 500, which tell the client no more than that.
    pub open spec fn reply(self) -> Seq<char> {
        if self.status() == 500 {
            "Internal Server Error"@
        } else {
            self.text()
        }
    }

    /// The HTTP status that the client sees.
    pub fn status_code(&self) -> (code: u16)
        ensures
            code == self.status(),
    {
        match self {
            Error::NotFound => 404,
            Error::Unauthorized => 401,
            Error::MethodNotAllowed => 405,
            Error::InvalidUrl => 400,
            _ => 500,
        }
    }

    /// The error in words.
    pub fn to_string(&self) -> (s: String)
        ensures
            s@ == self.text(),
    {
        match self {
            Error::NotFound => String::from_str("Not Found"),
            Error::InternalServerError => String::from_str("Internal Server Error"),
            Error::Unauthorized => String::from_str("Unauthorized"),
            Error::Other(detail) => String::from_str("Other: ").concat(detail.as_str()),
            Error::RedisError(detail) => String::from_str("Redis Error: ").concat(detail.as_str()),
            Error::MethodNotAllowed => String::from_str("Method Not Allowed"),
            Error::InvalidUrl => String::from_str("Invalid URL"),
            Error::InvalidResponse => String::from_str("Invalid Response"),
            Error::NoServerAvailable => String::from_str("No Server Available"),
        }
    }

    /// The response that tells the client of the error.
    pub fn into_response(self) -> (r: ApiResponse)
        ensures
            r.status == self.status(),
            r.message@ == self.reply(),
    {
        let status = self.status_code();
        let message = if status == 500 {
            String::from_str("Internal Server Error")
        } else {
            self.to_string()
        };
        ApiResponse { status, message }
    }
}

} // verus!

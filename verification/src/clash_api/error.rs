//! What can go wrong between a client and a controller.

use vstd::prelude::*;
use vstd::string::*;

use crate::text;
use crate::text::u64_to_string;

verus! {

#[derive(Debug)]
pub enum Error {
    InvalidBaseUrl { value: String, source: String },
    UnsupportedUrlScheme { scheme: String },
    UrlCannotBeABase { url: String },
    BaseUrlHasQueryOrFragment { url: String },
    UnsupportedTransport { transport: String },
    MissingHost { url: String },
    MissingPort { url: String },
    InvalidHeader,
    InvalidConfigPath { path: String },
    HttpStatus { status: u16, body: String },
    Io(String),
    Hyper(String),
    Http(String),
    Json(String),
    Query(String),
}

/// The words that usually go with a status code.
pub uninterp spec fn status_reason(status: u16) -> Option<Seq<char>>;

/// `hyper::StatusCode::from_u16` and `canonical_reason`: the words that the
/// standards give a status code, where they give some. A number below 100 or
/// above 999 is no status code and has none.
#[verifier::external_body]
fn canonical_reason(status: u16) -> (r: Option<String>)
    ensures
        match r {
            Some(words) => status_reason(status) == Some(words@),
            None => status_reason(status) is None,
        },
        status < 100 || status > 999 ==> r is None,
{
    match hyper::StatusCode::from_u16(status) {
        Ok(code) => code.canonical_reason().map(|words| words.to_owned()),
        Err(_) => None,
    }
}

/// A status code with its words.
pub open spec fn status_text(status: u16) -> Seq<char> {
    text::decimal(status as nat) + " "@ + (match status_reason(status) {
        Some(words) => words,
        None => "<unknown status code>"@,
    })
}

fn status_line(status: u16) -> (r: String)
    ensures
        r@ == status_text(status),
{
    let mut out = joined(u64_to_string(status as u64).as_str(), " ");
    match canonical_reason(status) {
        Some(words) => out.append(words.as_str()),
        None => out.append("<unknown status code>"),
    }
    out
}

/// What an error says.
pub open spec fn api_error_text(e: Error) -> Seq<char> {
    match e {
        Error::InvalidBaseUrl { value, source } => "invalid Clash API base URL `"@ + value@ + "`: "@
            + source@,
        Error::UnsupportedUrlScheme { scheme } => "unsupported Clash API URL scheme `"@ + scheme@
            + "`"@,
        Error::UrlCannotBeABase { url } => "URL cannot be used as a Clash API base URL: "@ + url@,
        Error::BaseUrlHasQueryOrFragment { url } =>
        "Clash API base URL must not contain a query or fragment: "@ + url@,
        Error::UnsupportedTransport { transport } => "unsupported Clash API transport: "@
            + transport@,
        Error::MissingHost { url } => "Clash API URL is missing a host: "@ + url@,
        Error::MissingPort { url } => "Clash API URL is missing a port: "@ + url@,
        Error::InvalidHeader =>
        "invalid Clash API authorization header: failed to parse header value"@,
        Error::InvalidConfigPath { path } => "invalid UTF-8 Clash config path: "@ + path@,
        Error::HttpStatus { status, body } => "Clash API request failed with status "@
            + status_text(status) + ": "@ + body@,
        Error::Io(message) => "Clash API I/O failed: "@ + message@,
        Error::Hyper(message) => "Clash API HTTP connection failed: "@ + message@,
        Error::Http(message) => "failed to build Clash API HTTP request: "@ + message@,
        Error::Json(message) => "failed to encode/decode Clash API JSON: "@ + message@,
        Error::Query(message) => "failed to encode Clash API query: "@ + message@,
    }
}

fn joined(a: &str, b: &str) -> (r: String)
    ensures
        r@ == a@ + b@,
{
    let mut out = a.to_owned();
    out.append(b);
    out
}

impl Error {
    pub fn message(&self) -> (r: String)
        ensures
            r@ == api_error_text(*self),
    {
        match self {
            Error::InvalidBaseUrl { value, source } => {
                let mut out = joined("invalid Clash API base URL `", value.as_str());
                out.append("`: ");
                out.append(source.as_str());
                out
            },
            Error::UnsupportedUrlScheme { scheme } => {
                let mut out = joined("unsupported Clash API URL scheme `", scheme.as_str());
                out.append("`");
                out
            },
            Error::UrlCannotBeABase { url } => joined(
                "URL cannot be used as a Clash API base URL: ",
                url.as_str(),
            ),
            Error::BaseUrlHasQueryOrFragment { url } => joined(
                "Clash API base URL must not contain a query or fragment: ",
                url.as_str(),
            ),
            Error::UnsupportedTransport { transport } => joined(
                "unsupported Clash API transport: ",
                transport.as_str(),
            ),
            Error::MissingHost { url } => joined("Clash API URL is missing a host: ", url.as_str()),
            Error::MissingPort { url } => joined("Clash API URL is missing a port: ", url.as_str()),
            Error::InvalidHeader =>
            "invalid Clash API authorization header: failed to parse header value".to_owned(),
            Error::InvalidConfigPath { path } => joined(
                "invalid UTF-8 Clash config path: ",
                path.as_str(),
            ),
            Error::HttpStatus { status, body } => {
                let mut out = joined(
                    "Clash API request failed with status ",
                    status_line(*status).as_str(),
                );
                out.append(": ");
                out.append(body.as_str());
                out
            },
            Error::Io(message) => joined("Clash API I/O failed: ", message.as_str()),
            Error::Hyper(message) => joined("Clash API HTTP connection failed: ", message.as_str()),
            Error::Http(message) => joined(
                "failed to build Clash API HTTP request: ",
                message.as_str(),
            ),
            Error::Json(message) => joined(
                "failed to encode/decode Clash API JSON: ",
                message.as_str(),
            ),
            Error::Query(message) => joined("failed to encode Clash API query: ", message.as_str()),
        }
    }
}

} // verus!

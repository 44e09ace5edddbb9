//! HTTP request methods and protocol versions, and their parsing from and
//! serialization to request-line tokens.
use vstd::prelude::*;
use crate::text::ascii_upper_char;

verus! {

/// The protocol version named on a request or response line. Versions
/// outside the closed set are carried verbatim.
#[derive(Clone, Debug)]
pub enum HttpVersion {
    HTTP1_0,
    HTTP1_1,
    HTTP2_0,
    Name(String),
}

/// The request method. Verbs outside the closed set are carried in their
/// upper-case form.
#[derive(Clone, Debug)]
pub enum HttpMethod {
    GET,
    POST,
    PUT,
    DELETE,
    HEAD,
    OPTIONS,
    TRACE,
    CONNECT,
    PATCH,
    Name(String),
}

/// The serialization of a version, as it appears on the wire.
pub open spec fn version_str(v: HttpVersion) -> Seq<char> {
    match v {
        HttpVersion::HTTP1_0 => "HTTP/1.0"@,
        HttpVersion::HTTP1_1 => "HTTP/1.1"@,
        HttpVersion::HTTP2_0 => "HTTP/2.0"@,
        HttpVersion::Name(name) => name@,
    }
}

/// What parsing the version token `s` must return.
pub open spec fn version_of(v: HttpVersion, s: Seq<char>) -> bool {
    if s == "HTTP/1.0"@ {
        v == HttpVersion::HTTP1_0
    } else if s == "HTTP/1.1"@ {
        v == HttpVersion::HTTP1_1
    } else if s == "HTTP/2.0"@ {
        v == HttpVersion::HTTP2_0
    } else {
        v matches HttpVersion::Name(name) && name@ == s
    }
}

/// The serialization of a method, as it appears on the wire.
pub open spec fn method_str(m: HttpMethod) -> Seq<char> {
    match m {
        HttpMethod::GET => "GET"@,
        HttpMethod::POST => "POST"@,
        HttpMethod::PUT => "PUT"@,
        HttpMethod::DELETE => "DELETE"@,
        HttpMethod::HEAD => "HEAD"@,
        HttpMethod::OPTIONS => "OPTIONS"@,
        HttpMethod::TRACE => "TRACE"@,
        HttpMethod::CONNECT => "CONNECT"@,
        HttpMethod::PATCH => "PATCH"@,
        HttpMethod::Name(name) => name@,
    }
}

/// What parsing a method token must return, given the token's upper-case
/// form `up`.
pub open spec fn method_of(m: HttpMethod, up: Seq<char>) -> bool {
    if up == "GET"@ {
        m == HttpMethod::GET
    } else if up == "POST"@ {
        m == HttpMethod::POST
    } else if up == "PUT"@ {
        m == HttpMethod::PUT
    } else if up == "DELETE"@ {
        m == HttpMethod::DELETE
    } else if up == "HEAD"@ {
        m == HttpMethod::HEAD
    } else if up == "OPTIONS"@ {
        m == HttpMethod::OPTIONS
    } else if up == "TRACE"@ {
        m == HttpMethod::TRACE
    } else if up == "CONNECT"@ {
        m == HttpMethod::CONNECT
    } else if up == "PATCH"@ {
        m == HttpMethod::PATCH
    } else {
        m matches HttpMethod::Name(name) && name@ == up
    }
}

/// The upper-case form of a token under ASCII case folding.
pub open spec fn upper_of(s: Seq<char>) -> Seq<char> {
    s.map_values(|c: char| ascii_upper_char(c))
}

/// Parsing a version token and serializing the result returns the token
/// unchanged: the closed set serializes to its own spellings, and every
/// other token rides through in the `Name` fallback.
pub proof fn lemma_version_round_trip(v: HttpVersion, s: Seq<char>)
    requires
        version_of(v, s),
    ensures
        version_str(v) == s,
{
}

/// Parsing a method token and serializing the result returns the token's
/// upper-case form: the closed set serializes to its own spellings, which
/// are their own upper-case forms, and every other token rides through in
/// the `Name` fallback in folded form.
pub proof fn lemma_method_round_trip(m: HttpMethod, up: Seq<char>)
    requires
        method_of(m, up),
    ensures
        method_str(m) == up,
{
}

} // verus!

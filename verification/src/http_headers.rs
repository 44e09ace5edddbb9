//! The parsed head of an HTTP request: method, version, request path, and
//! the raw header map, built from the lines read off the socket.
use vstd::prelude::*;
use vstd::string::*;
use crate::headers::Headers;
use crate::headers::HeaderPair;
use crate::headers::upsert;
use crate::method::HttpMethod;
use crate::method::HttpVersion;
use crate::method::method_of;
use crate::method::method_str;
use crate::method::upper_of;
use crate::method::version_of;
use crate::method::version_str;
use crate::text::split_char;
use crate::text::split_first_spec;
use crate::text::split_once_char;
use crate::text::split_spec;
use crate::text::trim;
use crate::text::trim_crlf_end;
use crate::text::trim_crlf_end_spec;
use crate::text::trim_spec;

verus! {

/// The head of a request: the request-line fields and the header map.
#[derive(Clone)]
pub struct HttpHeaders {
    pub method: HttpMethod,
    pub version: HttpVersion,
    pub uri: String,
    pub raw: Headers,
}

/// The name/value pair a header line parses to: the line with trailing
/// line endings removed is split at its first colon and both sides are
/// trimmed; a line without a colon parses to nothing.
pub open spec fn parse_header_spec(line: Seq<char>) -> Option<(Seq<char>, Seq<char>)> {
    match split_first_spec(trim_crlf_end_spec(line), ':') {
        None => None,
        Some(pair) => Some((trim_spec(pair.0), trim_spec(pair.1))),
    }
}

/// Whether a request line has the three tokens `method uri version`.
pub open spec fn request_line_ok(line: Seq<char>) -> bool {
    split_spec(line, ' ').len() >= 3
}

/// What the header map holds after reading `lines` in order into `pairs`:
/// each line that parses is set into the map, later lines overriding
/// earlier ones of the same name, and lines that do not parse are skipped.
pub open spec fn insert_lines(pairs: Seq<HeaderPair>, lines: Seq<Seq<char>>) -> Seq<HeaderPair>
    decreases lines.len(),
{
    if lines.len() == 0 {
        pairs
    } else {
        let next = match parse_header_spec(lines[0]) {
            Some(pair) => upsert(pairs, pair.0, pair.1),
            None => pairs,
        };
        insert_lines(next, lines.drop_first())
    }
}

proof fn lemma_insert_lines_snoc(pairs: Seq<HeaderPair>, lines: Seq<Seq<char>>, line: Seq<char>)
    ensures
        insert_lines(pairs, lines.push(line)) == (match parse_header_spec(line) {
            Some(pair) => upsert(insert_lines(pairs, lines), pair.0, pair.1),
            None => insert_lines(pairs, lines),
        }),
    decreases lines.len(),
{
    let pushed = lines.push(line);
    if lines.len() == 0 {
        let next = match parse_header_spec(line) {
            Some(pair) => upsert(pairs, pair.0, pair.1),
            None => pairs,
        };
        assert(pushed[0] == line);
        assert(pushed.drop_first() =~= Seq::<Seq<char>>::empty());
        assert(insert_lines(next, Seq::<Seq<char>>::empty()) == next);
        assert(insert_lines(pairs, lines) == pairs);
    } else {
        let next = match parse_header_spec(lines[0]) {
            Some(pair) => upsert(pairs, pair.0, pair.1),
            None => pairs,
        };
        lemma_insert_lines_snoc(next, lines.drop_first(), line);
        assert(pushed[0] == lines[0]);
        assert(pushed.drop_first() =~= lines.drop_first().push(line));
        assert(insert_lines(pairs, pushed) == insert_lines(next, lines.drop_first().push(line)));
        assert(insert_lines(pairs, lines) == insert_lines(next, lines.drop_first()));
    }
}

impl HttpHeaders {
    /// A default head: a GET for the root path with no headers.
    pub fn new() -> (r: HttpHeaders)
        ensures
            r.method == HttpMethod::GET,
            r.version == HttpVersion::HTTP2_0,
            r.uri@ == "/"@,
            r.raw.pairs() == Seq::<HeaderPair>::empty(),
            r.raw.wf(),
    {
        HttpHeaders {
            method: HttpMethod::GET,
            version: HttpVersion::HTTP2_0,
            uri: "/".to_owned(),
            raw: Headers::empty(),
        }
    }

    /// Parses a version token; tokens outside the closed set are kept
    /// verbatim.
    pub fn version_from_string(version: &str) -> (r: HttpVersion)
        ensures
            version_of(r, version@),
    {
        let v = version.to_owned();
        if v == "HTTP/1.0".to_owned() {
            HttpVersion::HTTP1_0
        } else if v == "HTTP/1.1".to_owned() {
            HttpVersion::HTTP1_1
        } else if v == "HTTP/2.0".to_owned() {
            HttpVersion::HTTP2_0
        } else {
            HttpVersion::Name(v)
        }
    }

    /// Parses a method token case-insensitively, folding ASCII letters to
    /// upper case; unknown verbs are kept in their folded form.
    pub fn method_from_string(method: &str) -> (r: HttpMethod)
        ensures
            method_of(r, upper_of(method@)),
    {
        let up = method.to_ascii_uppercase();
        if up == "GET".to_owned() {
            HttpMethod::GET
        } else if up == "POST".to_owned() {
            HttpMethod::POST
        } else if up == "PUT".to_owned() {
            HttpMethod::PUT
        } else if up == "DELETE".to_owned() {
            HttpMethod::DELETE
        } else if up == "HEAD".to_owned() {
            HttpMethod::HEAD
        } else if up == "OPTIONS".to_owned() {
            HttpMethod::OPTIONS
        } else if up == "TRACE".to_owned() {
            HttpMethod::TRACE
        } else if up == "CONNECT".to_owned() {
            HttpMethod::CONNECT
        } else if up == "PATCH".to_owned() {
            HttpMethod::PATCH
        } else {
            HttpMethod::Name(up)
        }
    }

    /// Serializes this head's method for the wire.
    pub fn method_string(&self) -> (r: String)
        ensures
            r@ == method_str(self.method),
    {
        match &self.method {
            HttpMethod::GET => "GET".to_owned(),
            HttpMethod::POST => "POST".to_owned(),
            HttpMethod::PUT => "PUT".to_owned(),
            HttpMethod::DELETE => "DELETE".to_owned(),
            HttpMethod::HEAD => "HEAD".to_owned(),
            HttpMethod::OPTIONS => "OPTIONS".to_owned(),
            HttpMethod::TRACE => "TRACE".to_owned(),
            HttpMethod::CONNECT => "CONNECT".to_owned(),
            HttpMethod::PATCH => "PATCH".to_owned(),
            HttpMethod::Name(name) => name.clone(),
        }
    }

    /// Serializes this head's version for the wire.
    pub fn version_string(&self) -> (r: String)
        ensures
            r@ == version_str(self.version),
    {
        match &self.version {
            HttpVersion::HTTP1_0 => "HTTP/1.0".to_owned(),
            HttpVersion::HTTP1_1 => "HTTP/1.1".to_owned(),
            HttpVersion::HTTP2_0 => "HTTP/2.0".to_owned(),
            HttpVersion::Name(name) => name.clone(),
        }
    }

    /// The request path this head names.
    pub fn uri_string(&self) -> (r: String)
        ensures
            r@ == self.uri@,
    {
        self.uri.clone()
    }

    /// Replaces the version carried on this head.
    pub fn set_version(&mut self, version: HttpVersion)
        ensures
            final(self).version == version,
            final(self).method == old(self).method,
            final(self).uri == old(self).uri,
            final(self).raw == old(self).raw,
    {
        self.version = version;
    }

    /// Parses one header line into a trimmed name/value pair; a line
    /// without a colon yields nothing.
    pub fn parse_header(header: &str) -> (r: Option<(String, String)>)
        ensures
            match r {
                Some(pair) => parse_header_spec(header@) == Some((pair.0@, pair.1@)),
                None => parse_header_spec(header@) is None,
            },
    {
        let line = trim_crlf_end(header);
        match split_once_char(line.as_str(), ':') {
            None => None,
            Some((name, value)) => {
                let name = trim(name.as_str());
                let value = trim(value.as_str());
                Some((name, value))
            },
        }
    }

    /// Parses a request line into its method, version and trimmed path.
    /// A line with fewer than three space-separated tokens is malformed.
    pub fn parse_http(line: String) -> (r: Result<(HttpMethod, HttpVersion, String), ()>)
        ensures
            r is Ok <==> request_line_ok(line@),
            r matches Ok(parts) ==> ({
                let tokens = split_spec(line@, ' ');
                &&& method_of(parts.0, upper_of(tokens[0]))
                &&& version_of(parts.1, tokens[2])
                &&& parts.2@ == trim_spec(tokens[1])
            }),
    {
        let parts = split_char(line.as_str(), ' ');
        proof {
            assert(parts@.map_values(|t: String| t@).len() == parts@.len());
        }
        if parts.len() < 3 {
            Err(())
        } else {
            let method = Self::method_from_string(parts[0].as_str());
            let version = Self::version_from_string(parts[2].as_str());
            let uri = trim(parts[1].as_str());
            proof {
                let tokens = split_spec(line@, ' ');
                assert(parts@.map_values(|t: String| t@)[0] == tokens[0]);
                assert(parts@.map_values(|t: String| t@)[1] == tokens[1]);
                assert(parts@.map_values(|t: String| t@)[2] == tokens[2]);
            }
            Ok((method, version, uri))
        }
    }

    /// Parses the lines of a request head: the first line as the request
    /// line, every further line as a header. Empty input or a malformed
    /// request line yields nothing; malformed header lines are skipped.
    pub fn from(data: &Vec<String>) -> (r: Option<HttpHeaders>)
        ensures
            ({
                let lines = data@.map_values(|s: String| s@);
                match r {
                    None => lines.len() == 0 || !request_line_ok(lines[0]),
                    Some(h) => {
                        &&& lines.len() > 0
                        &&& request_line_ok(lines[0])
                        &&& ({
                            let tokens = split_spec(lines[0], ' ');
                            &&& method_of(h.method, upper_of(tokens[0]))
                            &&& version_of(h.version, tokens[2])
                            &&& h.uri@ == trim_spec(tokens[1])
                        })
                        &&& h.raw.pairs() == insert_lines(
                            Seq::<HeaderPair>::empty(),
                            lines.drop_first(),
                        )
                        &&& h.raw.wf()
                    },
                }
            }),
    {
        let ghost lines = data@.map_values(|s: String| s@);
        if data.len() == 0 {
            return None;
        }
        let first = data[0].clone();
        let info = match Self::parse_http(first) {
            Ok(info) => info,
            Err(()) => {
                return None;
            },
        };
        let mut raw = Headers::empty();
        let mut i: usize = 1;
        proof {
            assert(lines.drop_first().subrange(0, 0) =~= Seq::<Seq<char>>::empty());
        }
        while i < data.len()
            invariant
                1 <= i <= data.len() == lines.len(),
                lines == data@.map_values(|s: String| s@),
                raw.wf(),
                raw.pairs() == insert_lines(
                    Seq::<HeaderPair>::empty(),
                    lines.drop_first().subrange(0, i - 1),
                ),
            decreases data.len() - i,
        {
            let ghost done = lines.drop_first().subrange(0, i - 1);
            proof {
                lemma_insert_lines_snoc(Seq::<HeaderPair>::empty(), done, lines[i as int]);
                assert(done.push(lines[i as int]) =~= lines.drop_first().subrange(0, i as int));
            }
            match Self::parse_header(data[i].as_str()) {
                Some((name, value)) => {
                    raw.set(name, value);
                },
                None => (),
            }
            i = i + 1;
        }
        proof {
            assert(lines.drop_first().subrange(0, lines.len() - 1) =~= lines.drop_first());
        }
        Some(
            HttpHeaders {
                method: info.0,
                version: info.1,
                uri: info.2,
                raw,
            },
        )
    }

    /// Parses a request head, falling back to the default head when the
    /// input is empty or its request line is malformed: a bad head never
    /// aborts the connection, it degrades to a default that still gets a
    /// best-effort response.
    pub fn from_or_default(data: &Vec<String>) -> (r: HttpHeaders)
        ensures
            ({
                let lines = data@.map_values(|s: String| s@);
                if lines.len() > 0 && request_line_ok(lines[0]) {
                    let tokens = split_spec(lines[0], ' ');
                    &&& method_of(r.method, upper_of(tokens[0]))
                    &&& version_of(r.version, tokens[2])
                    &&& r.uri@ == trim_spec(tokens[1])
                    &&& r.raw.pairs() == insert_lines(
                        Seq::<HeaderPair>::empty(),
                        lines.drop_first(),
                    )
                } else {
                    &&& r.method == HttpMethod::GET
                    &&& r.version == HttpVersion::HTTP2_0
                    &&& r.uri@ == "/"@
                    &&& r.raw.pairs() == Seq::<HeaderPair>::empty()
                }
            }),
            r.raw.wf(),
    {
        match Self::from(data) {
            Some(headers) => headers,
            None => Self::new(),
        }
    }

    /// The value stored under `key`, if any.
    pub fn get(&self, key: &str) -> (r: Option<String>)
        requires
            self.raw.wf(),
        ensures
            match r {
                Some(v) => crate::headers::lookup(self.raw.pairs(), key@) == Some(v@),
                None => crate::headers::lookup(self.raw.pairs(), key@) is None,
            },
    {
        self.raw.get(key.to_owned())
    }

    /// Sets the header `key` to `value`.
    pub fn set(&mut self, key: &str, value: &str)
        requires
            old(self).raw.wf(),
        ensures
            final(self).raw.pairs() == upsert(old(self).raw.pairs(), key@, value@),
            final(self).raw.wf(),
            final(self).method == old(self).method,
            final(self).version == old(self).version,
            final(self).uri == old(self).uri,
    {
        self.raw.set(key.to_owned(), value.to_owned());
    }

    /// Sets the content-type header.
    pub fn set_content_type(&mut self, content_type: &str)
        requires
            old(self).raw.wf(),
        ensures
            final(self).raw.pairs() == upsert(
                old(self).raw.pairs(),
                "Content-Type"@,
                content_type@,
            ),
            final(self).raw.wf(),
            final(self).method == old(self).method,
            final(self).version == old(self).version,
            final(self).uri == old(self).uri,
    {
        self.set("Content-Type", content_type);
    }

    /// Sets the content-length header to the decimal form of `length`.
    pub fn set_content_length(&mut self, length: usize)
        requires
            old(self).raw.wf(),
        ensures
            final(self).raw.pairs() == upsert(
                old(self).raw.pairs(),
                "Content-Length"@,
                crate::text::dec_digits(length as nat),
            ),
            final(self).raw.wf(),
            final(self).method == old(self).method,
            final(self).version == old(self).version,
            final(self).uri == old(self).uri,
    {
        let rendered = crate::text::u64_to_string(length as u64);
        self.raw.set("Content-Length".to_owned(), rendered);
    }
}

} // verus!

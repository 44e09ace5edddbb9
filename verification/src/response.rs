//! The HTTP response: status, headers and body, and its serialization to
//! wire bytes.
use vstd::prelude::*;
use vstd::string::*;
use vstd::utf8::encode_utf8;
use crate::headers::Headers;
use crate::headers::upsert;
use crate::http_headers::HttpHeaders;
use crate::method::HttpMethod;
use crate::method::HttpVersion;
use crate::method::version_str;
use crate::server::Flag;
use crate::status::HttpStatus;
use crate::text::dec_digits;
use crate::text::u64_to_string;

verus! {

/// A response under construction: the head it will be sent with, its
/// status, and its body, present until the response is serialized.
#[derive(Clone)]
pub struct HttpResponse {
    pub headers: HttpHeaders,
    pub status: HttpStatus,
    pub body: Option<Vec<u8>>,
}

/// The status line: `version code message`, ended by a
/// carriage-return/newline pair.
pub open spec fn status_line_spec(r: HttpResponse) -> Seq<char> {
    version_str(r.headers.version) + " "@ + dec_digits(r.status.code_spec() as nat) + " "@
        + r.status.message_spec() + "\r\n"@
}

/// The head of the serialized response: the status line, one line per
/// header, and the blank line before the body.
pub open spec fn response_headers_spec(r: HttpResponse) -> Seq<char> {
    status_line_spec(r) + Headers::lines_spec(r.headers.raw.pairs()) + "\r\n"@
}

/// The serialized response: the head as bytes, then the body bytes.
pub open spec fn prepare_spec(r: HttpResponse) -> Seq<u8> {
    encode_utf8(response_headers_spec(r)) + (match r.body {
        Some(b) => b@,
        None => Seq::<u8>::empty(),
    })
}

/// Appends the line ending that closes an HTTP header line.
pub fn with_crlf(data: &str) -> (r: String)
    ensures
        r@ == data@ + "\r\n"@,
{
    let mut out = data.to_owned();
    out.append("\r\n");
    out
}

impl HttpResponse {
    /// Appends the line ending that closes an HTTP header line.
    pub fn with_crlf(data: &str) -> (r: String)
        ensures
            r@ == data@ + "\r\n"@,
    {
        crate::response::with_crlf(data)
    }

    /// An empty 200 response with a default head and no body.
    pub fn new() -> (r: HttpResponse)
        ensures
            r.status == HttpStatus::OK,
            r.body is None,
            r.headers.method == HttpMethod::GET,
            r.headers.version == HttpVersion::HTTP2_0,
            r.headers.uri@ == "/"@,
            r.headers.raw.pairs() == Seq::<crate::headers::HeaderPair>::empty(),
            r.headers.raw.wf(),
    {
        HttpResponse { headers: HttpHeaders::new(), status: HttpStatus::OK, body: None }
    }

    /// A 200 response carrying a resolved file: the body is the file's
    /// bytes and the content headers describe them.
    pub fn with_static_file(file_bytes: Vec<u8>, mime: &str) -> (r: HttpResponse)
        ensures
            r.status == HttpStatus::OK,
            r.body matches Some(b) && b@ == file_bytes@,
            r.headers.raw.pairs() == upsert(
                upsert(
                    Seq::<crate::headers::HeaderPair>::empty(),
                    "Content-Length"@,
                    dec_digits(file_bytes@.len() as nat),
                ),
                "Content-Type"@,
                mime@,
            ),
            r.headers.raw.wf(),
            r.headers.version == HttpVersion::HTTP2_0,
    {
        let mut response = HttpResponse::new();
        response.set_body(file_bytes, mime);
        response
    }

    /// Sets the body, deriving the content-length and content-type
    /// headers from it. The one way a body enters a response.
    pub fn set_body(&mut self, body: Vec<u8>, mime: &str)
        requires
            old(self).headers.raw.wf(),
        ensures
            final(self).body matches Some(b) && b@ == body@,
            final(self).headers.raw.pairs() == upsert(
                upsert(
                    old(self).headers.raw.pairs(),
                    "Content-Length"@,
                    dec_digits(body@.len() as nat),
                ),
                "Content-Type"@,
                mime@,
            ),
            final(self).headers.raw.wf(),
            final(self).status == old(self).status,
            final(self).headers.version == old(self).headers.version,
            final(self).headers.method == old(self).headers.method,
            final(self).headers.uri == old(self).headers.uri,
    {
        self.headers.set_content_length(body.len());
        self.headers.set_content_type(mime);
        self.body = Some(body);
    }

    /// Sets one header on the response.
    pub fn set_header(&mut self, key: &str, value: &str)
        requires
            old(self).headers.raw.wf(),
        ensures
            final(self).headers.raw.pairs() == upsert(old(self).headers.raw.pairs(), key@, value@),
            final(self).headers.raw.wf(),
            final(self).status == old(self).status,
            final(self).body == old(self).body,
            final(self).headers.version == old(self).headers.version,
            final(self).headers.method == old(self).headers.method,
            final(self).headers.uri == old(self).headers.uri,
    {
        self.headers.set(key, value);
    }

    /// Sets the status the response will be sent with.
    pub fn set_status(&mut self, status: HttpStatus)
        ensures
            final(self).status == status,
            final(self).body == old(self).body,
            final(self).headers == old(self).headers,
    {
        self.status = status;
    }

    /// Sets the protocol version named on the status line.
    pub fn set_version(&mut self, version: HttpVersion)
        ensures
            final(self).headers.version == version,
            final(self).status == old(self).status,
            final(self).body == old(self).body,
            final(self).headers.method == old(self).headers.method,
            final(self).headers.uri == old(self).headers.uri,
            final(self).headers.raw == old(self).headers.raw,
    {
        self.headers.set_version(version);
    }

    /// Turns the response into the head of an event stream: a 200 whose
    /// headers announce `text/event-stream` and keep the connection open,
    /// with an initial greeting payload. Returns the flag that tells the
    /// dispatcher to hand the connection to the registry.
    pub fn start_event_stream(&mut self) -> (r: Result<Flag, crate::error::ServerError>)
        requires
            old(self).headers.raw.wf(),
        ensures
            r matches Ok(f) && f == Flag::EventStream,
            final(self).status == HttpStatus::OK,
            final(self).body matches Some(b) && b@ == encode_utf8("data: connected!\n\n"@),
            final(self).headers.raw.pairs() == upsert(
                upsert(
                    upsert(
                        upsert(
                            upsert(old(self).headers.raw.pairs(), "Content-Type"@,
                            "text/event-stream"@),
                            "Cache-Control"@,
                            "no-cache"@,
                        ),
                        "Connection"@,
                        "keep-alive"@,
                    ),
                    "X-Accel-Buffering"@,
                    "no"@,
                ),
                "Content-Length"@,
                dec_digits(encode_utf8("data: connected!\n\n"@).len() as nat),
            ),
            final(self).headers.raw.wf(),
            final(self).headers.version == old(self).headers.version,
    {
        self.set_status(HttpStatus::OK);
        self.headers.set("Content-Type", "text/event-stream");
        self.headers.set("Cache-Control", "no-cache");
        self.headers.set("Connection", "keep-alive");
        self.headers.set("X-Accel-Buffering", "no");
        let greeting = "data: connected!\n\n";
        let body = greeting.as_bytes_vec();
        self.headers.set_content_length(body.len());
        self.body = Some(body);
        Ok(Flag::EventStream)
    }

    /// Serializes the response: the status line, every header line, a
    /// blank line, then the body. The body is taken, not copied: after
    /// this call the response has none, and serializing it again emits
    /// the same head with an empty body.
    pub fn prepare(&mut self) -> (r: Vec<u8>)
        ensures
            r@ == prepare_spec(*old(self)),
            final(self).body is None,
            final(self).headers == old(self).headers,
            final(self).status == old(self).status,
    {
        let head = self.response_headers();
        let mut bytes = head.as_str().as_bytes_vec();
        let mut taken: Option<Vec<u8>> = None;
        core::mem::swap(&mut self.body, &mut taken);
        match taken {
            Some(mut body) => {
                bytes.append(&mut body);
            },
            None => {
                proof {
                    assert(bytes@ =~= prepare_spec(*old(self)));
                }
            },
        }
        bytes
    }

    /// Serializes the head alone: the status line, each header as its own
    /// line, and the blank line that ends the head.
    pub fn response_headers(&self) -> (r: String)
        ensures
            r@ == response_headers_spec(*self),
    {
        let version = self.headers.version_string();
        let code = self.status.code();
        let message = self.status.message();
        let mut out = version;
        out.append(" ");
        let code_str = u64_to_string(code as u64);
        out.append(code_str.as_str());
        out.append(" ");
        out.append(message);
        out.append("\r\n");
        let lines = self.headers.raw.lines();
        out.append(lines.as_str());
        out.append("\r\n");
        proof {
            assert(out@ =~= response_headers_spec(*self));
        }
        out
    }
}

/// The content headers a body brings with it are the ones read back: once
/// a body is set, the content-length header reads exactly the body's byte
/// count in decimal, and the content-type header reads the MIME string the
/// body was set with.
pub proof fn lemma_content_headers_match_body(
    pairs: Seq<crate::headers::HeaderPair>,
    body: Seq<u8>,
    mime: Seq<char>,
)
    ensures
        crate::headers::lookup(
            upsert(upsert(pairs, "Content-Length"@, dec_digits(body.len())), "Content-Type"@, mime),
            "Content-Length"@,
        ) == Some(dec_digits(body.len())),
        crate::headers::lookup(
            upsert(upsert(pairs, "Content-Length"@, dec_digits(body.len())), "Content-Type"@, mime),
            "Content-Type"@,
        ) == Some(mime),
{
    reveal_strlit("Content-Length");
    reveal_strlit("Content-Type");
    assert("Content-Length"@.len() == 14);
    assert("Content-Type"@.len() == 12);
    let with_length = upsert(pairs, "Content-Length"@, dec_digits(body.len()));
    crate::headers::lemma_lookup_upsert(with_length, "Content-Type"@, mime);
    crate::headers::lemma_lookup_upsert(pairs, "Content-Length"@, dec_digits(body.len()));
    crate::headers::lemma_lookup_upsert_other(
        with_length,
        "Content-Type"@,
        mime,
        "Content-Length"@,
    );
}

/// Serializing a response a second time yields the same status line and
/// header lines with an empty body: the body went out with the first
/// serialization and is not replayed.
pub proof fn lemma_prepare_consumes_body(first: HttpResponse, second: HttpResponse)
    requires
        // what `prepare` leaves behind
        second.body is None,
        second.headers == first.headers,
        second.status == first.status,
    ensures
        prepare_spec(second) == encode_utf8(response_headers_spec(first)),
        prepare_spec(second) == prepare_spec(first).take(
            encode_utf8(response_headers_spec(first)).len() as int,
        ),
{
    assert(prepare_spec(second) =~= encode_utf8(response_headers_spec(first)));
    assert(prepare_spec(second) =~= prepare_spec(first).take(
        encode_utf8(response_headers_spec(first)).len() as int,
    ));
}

} // verus!

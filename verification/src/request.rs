//! The parsed request head as a flat map: the request-line fields under
//! reserved names beside the headers, as the line reader fills them in.
use vstd::prelude::*;
use vstd::string::*;
use crate::headers::HeaderPair;
use crate::headers::Headers;
use crate::headers::lookup;
use crate::headers::upsert;
use crate::text::split_first_spec;
use crate::text::trim;
use crate::text::trim_spec;

verus! {

/// What one header line adds to the map: the text before the first colon
/// as the name and the rest as the value, both trimmed; a line without a
/// colon adds nothing.
pub open spec fn header_line_spec(pairs: Seq<HeaderPair>, line: Seq<char>) -> Seq<HeaderPair> {
    match split_first_spec(line, ':') {
        Some(kv) => upsert(pairs, trim_spec(kv.0), trim_spec(kv.1)),
        None => pairs,
    }
}

/// What the request line adds to the map: its first two space-separated
/// tokens as the method and the target, and the rest as the version,
/// under their reserved names; a line with fewer tokens adds nothing.
pub open spec fn request_line_spec(pairs: Seq<HeaderPair>, line: Seq<char>) -> Seq<HeaderPair> {
    match split_first_spec(line, ' ') {
        None => pairs,
        Some(first) => match split_first_spec(first.1, ' ') {
            None => pairs,
            Some(second) => upsert(
                upsert(upsert(pairs, "http_version"@, second.1), "method"@, first.0),
                "url"@,
                second.0,
            ),
        },
    }
}

/// What the whole head parses to: the request line, then each header
/// line in order.
pub open spec fn head_lines_spec(pairs: Seq<HeaderPair>, lines: Seq<Seq<char>>) -> Seq<HeaderPair>
    decreases lines.len(),
{
    if lines.len() == 0 {
        pairs
    } else {
        head_lines_spec(header_line_spec(pairs, lines[0]), lines.drop_first())
    }
}

proof fn lemma_head_lines_snoc(pairs: Seq<HeaderPair>, lines: Seq<Seq<char>>, line: Seq<char>)
    ensures
        head_lines_spec(pairs, lines.push(line)) == header_line_spec(
            head_lines_spec(pairs, lines),
            line,
        ),
    decreases lines.len(),
{
    let pushed = lines.push(line);
    if lines.len() == 0 {
        assert(pushed[0] == line);
        assert(pushed.drop_first() =~= Seq::<Seq<char>>::empty());
        assert(head_lines_spec(header_line_spec(pairs, line), Seq::<Seq<char>>::empty())
            == header_line_spec(pairs, line));
        assert(head_lines_spec(pairs, lines) == pairs);
    } else {
        lemma_head_lines_snoc(header_line_spec(pairs, lines[0]), lines.drop_first(), line);
        assert(pushed[0] == lines[0]);
        assert(pushed.drop_first() =~= lines.drop_first().push(line));
    }
}

/// Reads one header line into the map.
pub fn read_line_into(headers: &mut Headers, line: &String)
    requires
        old(headers).wf(),
    ensures
        final(headers).pairs() == header_line_spec(old(headers).pairs(), line@),
        final(headers).wf(),
{
    match crate::text::split_once_char(line.as_str(), ':') {
        None => (),
        Some((key, value)) => {
            let key = trim(key.as_str());
            let value = trim(value.as_str());
            headers.set(key, value);
        },
    }
}

/// Reads the request line into the map, under the reserved names.
pub fn read_line_http(headers: &mut Headers, line: &String)
    requires
        old(headers).wf(),
    ensures
        final(headers).pairs() == request_line_spec(old(headers).pairs(), line@),
        final(headers).wf(),
{
    match crate::text::split_once_char(line.as_str(), ' ') {
        None => (),
        Some((method, rest)) => {
            match crate::text::split_once_char(rest.as_str(), ' ') {
                None => (),
                Some((url, version)) => {
                    headers.set("http_version".to_owned(), version);
                    headers.set("method".to_owned(), method);
                    headers.set("url".to_owned(), url);
                },
            }
        },
    }
}

/// A parsed request head: a map from field names to their text.
pub struct Request {
    data: Headers,
}

impl Request {
    /// The fields this request holds.
    pub closed spec fn fields(&self) -> Seq<HeaderPair> {
        self.data.pairs()
    }

    /// The map never holds a field name twice.
    pub closed spec fn wf(&self) -> bool {
        self.data.wf()
    }

    /// A request over an already-filled field map.
    pub fn new(data: Headers) -> (r: Request)
        requires
            data.wf(),
        ensures
            r.fields() == data.pairs(),
            r.wf(),
    {
        Request { data }
    }

    /// Parses the lines of a request head: the first line as the request
    /// line, every further line as a header line.
    #[verifier::loop_isolation(false)]
    pub fn from_lines(lines: &Vec<String>) -> (r: Request)
        ensures
            ({
                let views = lines@.map_values(|s: String| s@);
                r.fields() == (if views.len() == 0 {
                    Seq::<HeaderPair>::empty()
                } else {
                    head_lines_spec(
                        request_line_spec(Seq::<HeaderPair>::empty(), views[0]),
                        views.drop_first(),
                    )
                })
            }),
            r.wf(),
    {
        let ghost views = lines@.map_values(|s: String| s@);
        let mut data = Headers::empty();
        if lines.len() == 0 {
            return Request { data };
        }
        read_line_http(&mut data, &lines[0]);
        let mut i: usize = 1;
        proof {
            assert(views.drop_first().subrange(0, 0) =~= Seq::<Seq<char>>::empty());
        }
        while i < lines.len()
            invariant
                1 <= i <= lines.len(),
                data.wf(),
                data.pairs() == head_lines_spec(
                    request_line_spec(Seq::<HeaderPair>::empty(), views[0]),
                    views.drop_first().subrange(0, i - 1),
                ),
            decreases lines.len() - i,
        {
            let ghost done = views.drop_first().subrange(0, i - 1);
            proof {
                lemma_head_lines_snoc(
                    request_line_spec(Seq::<HeaderPair>::empty(), views[0]),
                    done,
                    views[i as int],
                );
                assert(done.push(views[i as int]) =~= views.drop_first().subrange(0, i as int));
            }
            read_line_into(&mut data, &lines[i]);
            i = i + 1;
        }
        proof {
            assert(views.drop_first().subrange(0, views.len() - 1) =~= views.drop_first());
        }
        Request { data }
    }

    /// The request target, with the bare root path standing for the index
    /// document; nothing when no request line was read.
    pub fn url(&self) -> (r: Option<String>)
        requires
            self.wf(),
        ensures
            match r {
                Some(v) => lookup(self.fields(), "url"@) matches Some(u) && (if u == "/"@ {
                    v@ == "/index.html"@
                } else {
                    v@ == u
                }),
                None => lookup(self.fields(), "url"@) is None,
            },
    {
        match self.data.get("url".to_owned()) {
            Some(value) => {
                if value == "/".to_owned() {
                    Some("/index.html".to_owned())
                } else {
                    Some(value)
                }
            },
            None => None,
        }
    }

    /// The request method's text, when a request line was read.
    pub fn method(&self) -> (r: Option<String>)
        requires
            self.wf(),
        ensures
            match r {
                Some(v) => lookup(self.fields(), "method"@) == Some(v@),
                None => lookup(self.fields(), "method"@) is None,
            },
    {
        self.data.get("method".to_owned())
    }

    /// The protocol version's text, when a request line was read.
    pub fn http_version(&self) -> (r: Option<String>)
        requires
            self.wf(),
        ensures
            match r {
                Some(v) => lookup(self.fields(), "http_version"@) == Some(v@),
                None => lookup(self.fields(), "http_version"@) is None,
            },
    {
        self.data.get("http_version".to_owned())
    }
}

} // verus!

//! The header map: a case-sensitive association of header names to values,
//! kept in insertion order, together with the content types the server
//! emits.
use vstd::prelude::*;
use vstd::string::*;
use crate::text::dec_digits;
use crate::text::u64_to_string;

verus! {

/// A header name/value pair at the specification level.
pub type HeaderPair = (Seq<char>, Seq<char>);

/// Whether some pair in `pairs` carries the name `k`.
pub open spec fn has_name(pairs: Seq<HeaderPair>, k: Seq<char>) -> bool {
    exists|i: int| 0 <= i < pairs.len() && pairs[i].0 == k
}

/// The value of the first pair named `k`, if any.
pub open spec fn lookup(pairs: Seq<HeaderPair>, k: Seq<char>) -> Option<Seq<char>>
    decreases pairs.len(),
{
    if pairs.len() == 0 {
        None
    } else if pairs[0].0 == k {
        Some(pairs[0].1)
    } else {
        lookup(pairs.drop_first(), k)
    }
}

/// `pairs` with the pair named `k` set to `v`: replaced in place when the
/// name is present, appended when it is not.
pub open spec fn upsert(pairs: Seq<HeaderPair>, k: Seq<char>, v: Seq<char>) -> Seq<HeaderPair>
    decreases pairs.len(),
{
    if pairs.len() == 0 {
        seq![(k, v)]
    } else if pairs[0].0 == k {
        seq![(k, v)] + pairs.drop_first()
    } else {
        seq![pairs[0]] + upsert(pairs.drop_first(), k, v)
    }
}

/// No two pairs carry the same name.
pub open spec fn names_unique(pairs: Seq<HeaderPair>) -> bool {
    forall|i: int, j: int| 0 <= i < j < pairs.len() ==> pairs[i].0 != pairs[j].0
}

proof fn lemma_upsert_found(pairs: Seq<HeaderPair>, k: Seq<char>, v: Seq<char>, i: int)
    requires
        0 <= i < pairs.len(),
        pairs[i].0 == k,
        forall|j: int| 0 <= j < i ==> pairs[j].0 != k,
    ensures
        upsert(pairs, k, v) == pairs.update(i, (k, v)),
    decreases i,
{
    if i == 0 {
        assert(upsert(pairs, k, v) =~= pairs.update(0, (k, v)));
    } else {
        lemma_upsert_found(pairs.drop_first(), k, v, i - 1);
        assert(pairs.drop_first().update(i - 1, (k, v)) =~= pairs.update(i, (k, v)).drop_first());
        assert(upsert(pairs, k, v) =~= pairs.update(i, (k, v)));
    }
}

proof fn lemma_upsert_missing(pairs: Seq<HeaderPair>, k: Seq<char>, v: Seq<char>)
    requires
        forall|j: int| 0 <= j < pairs.len() ==> pairs[j].0 != k,
    ensures
        upsert(pairs, k, v) == pairs.push((k, v)),
    decreases pairs.len(),
{
    if pairs.len() == 0 {
        assert(upsert(pairs, k, v) =~= pairs.push((k, v)));
    } else {
        lemma_upsert_missing(pairs.drop_first(), k, v);
        assert(upsert(pairs, k, v) =~= pairs.push((k, v)));
    }
}

proof fn lemma_lookup_at(pairs: Seq<HeaderPair>, k: Seq<char>, i: int)
    requires
        0 <= i < pairs.len(),
        pairs[i].0 == k,
        forall|j: int| 0 <= j < i ==> pairs[j].0 != k,
    ensures
        lookup(pairs, k) == Some(pairs[i].1),
    decreases i,
{
    if i > 0 {
        lemma_lookup_at(pairs.drop_first(), k, i - 1);
    }
}

proof fn lemma_lookup_missing(pairs: Seq<HeaderPair>, k: Seq<char>)
    requires
        forall|j: int| 0 <= j < pairs.len() ==> pairs[j].0 != k,
    ensures
        lookup(pairs, k) is None,
    decreases pairs.len(),
{
    if pairs.len() > 0 {
        lemma_lookup_missing(pairs.drop_first(), k);
    }
}

/// Reading a name back right after setting it yields the value just set.
pub proof fn lemma_lookup_upsert(pairs: Seq<HeaderPair>, k: Seq<char>, v: Seq<char>)
    ensures
        lookup(upsert(pairs, k, v), k) == Some(v),
    decreases pairs.len(),
{
    if pairs.len() == 0 {
        assert(upsert(pairs, k, v)[0] == (k, v));
    } else if pairs[0].0 == k {
        assert(upsert(pairs, k, v)[0] == (k, v));
    } else {
        lemma_lookup_upsert(pairs.drop_first(), k, v);
        assert(upsert(pairs, k, v)[0] == pairs[0]);
        assert(upsert(pairs, k, v).drop_first() =~= upsert(pairs.drop_first(), k, v));
    }
}

/// Setting one name leaves every other name's value alone.
pub proof fn lemma_lookup_upsert_other(
    pairs: Seq<HeaderPair>,
    k: Seq<char>,
    v: Seq<char>,
    other: Seq<char>,
)
    requires
        other != k,
    ensures
        lookup(upsert(pairs, k, v), other) == lookup(pairs, other),
    decreases pairs.len(),
{
    if pairs.len() == 0 {
        assert(upsert(pairs, k, v)[0] == (k, v));
        assert(upsert(pairs, k, v).drop_first() =~= Seq::<HeaderPair>::empty());
        assert(lookup(Seq::<HeaderPair>::empty(), other) is None);
    } else if pairs[0].0 == k {
        assert(upsert(pairs, k, v)[0] == (k, v));
        assert(upsert(pairs, k, v).drop_first() =~= pairs.drop_first());
        assert(lookup(upsert(pairs, k, v), other) == lookup(pairs.drop_first(), other));
    } else {
        lemma_lookup_upsert_other(pairs.drop_first(), k, v, other);
        assert(upsert(pairs, k, v)[0] == pairs[0]);
        assert(upsert(pairs, k, v).drop_first() =~= upsert(pairs.drop_first(), k, v));
    }
}

/// The content types this server tells apart when serving files.
pub enum ContentType {
    HTML,
    CSS,
    PNG,
    JSON,
    TEXT,
    From(String),
}

impl ContentType {
    /// The MIME string this content type stands for.
    pub open spec fn mime_spec(&self) -> Seq<char> {
        match self {
            ContentType::TEXT => "text/plain; charset=utf-8"@,
            ContentType::HTML => "text/html; charset=utf-8"@,
            ContentType::CSS => "text/css"@,
            ContentType::PNG => "image/png"@,
            ContentType::JSON => "application/json"@,
            ContentType::From(value) => value@,
        }
    }
}

/// Whether `s` ends with `suffix`, stated over their characters.
pub open spec fn ends_with_spec(s: Seq<char>, suffix: Seq<char>) -> bool {
    s.len() >= suffix.len() && s.subrange(s.len() - suffix.len(), s.len() as int) == suffix
}

/// The content type a file is served with, read off its name's extension;
/// anything unrecognised is served as HTML.
pub fn mime_type(file: &String) -> (r: ContentType)
    ensures
        ends_with_spec(file@, ".html"@) ==> r is HTML,
        !ends_with_spec(file@, ".html"@) && ends_with_spec(file@, ".css"@) ==> r is CSS,
        !ends_with_spec(file@, ".html"@) && !ends_with_spec(file@, ".css"@) && ends_with_spec(
            file@,
            ".png"@,
        ) ==> r is PNG,
        !ends_with_spec(file@, ".html"@) && !ends_with_spec(file@, ".css"@) && !ends_with_spec(
            file@,
            ".png"@,
        ) && ends_with_spec(file@, ".json"@) ==> r is JSON,
        !ends_with_spec(file@, ".html"@) && !ends_with_spec(file@, ".css"@) && !ends_with_spec(
            file@,
            ".png"@,
        ) && !ends_with_spec(file@, ".json"@) && ends_with_spec(file@, ".txt"@) ==> r is TEXT,
        !ends_with_spec(file@, ".html"@) && !ends_with_spec(file@, ".css"@) && !ends_with_spec(
            file@,
            ".png"@,
        ) && !ends_with_spec(file@, ".json"@) && !ends_with_spec(file@, ".txt"@) ==> r is HTML,
{
    if crate::text::ends_with(file.as_str(), ".html") {
        ContentType::HTML
    } else if crate::text::ends_with(file.as_str(), ".css") {
        ContentType::CSS
    } else if crate::text::ends_with(file.as_str(), ".png") {
        ContentType::PNG
    } else if crate::text::ends_with(file.as_str(), ".json") {
        ContentType::JSON
    } else if crate::text::ends_with(file.as_str(), ".txt") {
        ContentType::TEXT
    } else {
        ContentType::HTML
    }
}

/// A case-sensitive header map in insertion order: setting a name that is
/// already present replaces its value in place; a new name is appended.
#[derive(Clone)]
pub struct Headers {
    headers: Vec<(String, String)>,
}

impl Headers {
    /// The pairs this map holds, in order.
    pub closed spec fn pairs(&self) -> Seq<HeaderPair> {
        self.headers@.map_values(|p: (String, String)| (p.0@, p.1@))
    }

    /// The map never holds two pairs with one name.
    pub closed spec fn wf(&self) -> bool {
        names_unique(self.pairs())
    }

    /// A fresh map holding only the default plain-text content type.
    pub fn new() -> (r: Headers)
        ensures
            r.pairs() == seq![("Content-Type"@, "text/plain; charset=utf-8"@)],
            r.wf(),
    {
        let mut headers: Vec<(String, String)> = Vec::new();
        headers.push(("Content-Type".to_owned(), "text/plain; charset=utf-8".to_owned()));
        let r = Headers { headers };
        proof {
            assert(r.pairs() =~= seq![("Content-Type"@, "text/plain; charset=utf-8"@)]);
        }
        r
    }

    /// An empty map.
    pub fn empty() -> (r: Headers)
        ensures
            r.pairs() == Seq::<HeaderPair>::empty(),
            r.wf(),
    {
        let r = Headers { headers: Vec::new() };
        proof {
            assert(r.pairs() =~= Seq::<HeaderPair>::empty());
        }
        r
    }

    /// Sets `header` to `value`, replacing in place or appending.
    #[verifier::loop_isolation(false)]
    pub fn set(&mut self, header: String, value: String)
        requires
            old(self).wf(),
        ensures
            final(self).pairs() == upsert(old(self).pairs(), header@, value@),
            final(self).wf(),
    {
        let ghost orig = self.pairs();
        let mut i: usize = 0;
        let n = self.headers.len();
        while i < n
            invariant
                0 <= i <= n == self.headers.len(),
                forall|j: int| 0 <= j < i ==> self.pairs()[j].0 != header@,
                self.pairs() == orig,
                names_unique(orig),
            decreases n - i,
        {
            if self.headers[i].0 == header {
                let ghost hk = header@;
                let ghost hv = value@;
                proof {
                    lemma_upsert_found(orig, hk, hv, i as int);
                }
                self.headers[i] = (header, value);
                proof {
                    assert(self.pairs() =~= orig.update(i as int, (hk, hv)));
                    assert(forall|j: int|
                        0 <= j < self.pairs().len() ==> self.pairs()[j].0 == orig[j].0);
                }
                return ;
            }
            i = i + 1;
        }
        proof {
            lemma_upsert_missing(orig, header@, value@);
        }
        self.headers.push((header, value));
        proof {
            assert(self.pairs() =~= orig.push((header@, value@)));
        }
    }

    /// The value stored under `header`, if any.
    pub fn get(&self, header: String) -> (r: Option<String>)
        requires
            self.wf(),
        ensures
            match r {
                Some(v) => lookup(self.pairs(), header@) == Some(v@),
                None => lookup(self.pairs(), header@) is None,
            },
    {
        let mut i: usize = 0;
        let n = self.headers.len();
        while i < n
            invariant
                0 <= i <= n == self.headers.len(),
                forall|j: int| 0 <= j < i ==> self.pairs()[j].0 != header@,
            decreases n - i,
        {
            if self.headers[i].0 == header {
                proof {
                    lemma_lookup_at(self.pairs(), header@, i as int);
                }
                return Some(self.headers[i].1.clone());
            }
            i = i + 1;
        }
        proof {
            lemma_lookup_missing(self.pairs(), header@);
        }
        None
    }

    /// Sets the content-type header to the given type's MIME string.
    pub fn set_content_type(&mut self, content_type: ContentType)
        requires
            old(self).wf(),
        ensures
            final(self).pairs() == upsert(
                old(self).pairs(),
                "Content-Type"@,
                content_type.mime_spec(),
            ),
            final(self).wf(),
    {
        let header_value = match content_type {
            ContentType::TEXT => "text/plain; charset=utf-8".to_owned(),
            ContentType::HTML => "text/html; charset=utf-8".to_owned(),
            ContentType::CSS => "text/css".to_owned(),
            ContentType::PNG => "image/png".to_owned(),
            ContentType::JSON => "application/json".to_owned(),
            ContentType::From(value) => value,
        };
        self.set("Content-Type".to_owned(), header_value);
    }

    /// Sets the content-length header to the decimal form of `value`.
    pub fn set_content_length(&mut self, value: usize)
        requires
            old(self).wf(),
        ensures
            final(self).pairs() == upsert(
                old(self).pairs(),
                "Content-Length"@,
                dec_digits(value as nat),
            ),
            final(self).wf(),
    {
        let rendered = u64_to_string(value as u64);
        self.set("Content-Length".to_owned(), rendered);
    }

    /// The serialization of `pairs`, one `name: value` line per pair, each
    /// line ended by a carriage-return/newline pair.
    pub open spec fn lines_spec(pairs: Seq<HeaderPair>) -> Seq<char>
        decreases pairs.len(),
    {
        if pairs.len() == 0 {
            Seq::<char>::empty()
        } else {
            pairs[0].0 + ": "@ + pairs[0].1 + "\r\n"@ + Self::lines_spec(pairs.drop_first())
        }
    }

    /// Serializes the map behind a fixed HTTP/1.1 status line.
    pub fn write(&self) -> (r: String)
        ensures
            r@ == "HTTP 1.1 200 OK\r\n"@ + Self::lines_spec(self.pairs()),
    {
        let mut out = "HTTP 1.1 200 OK\r\n".to_owned();
        let more = Self::write_lines(&self.headers, 0);
        out.append(more.as_str());
        proof {
            let pairs = self.headers@.map_values(|p: (String, String)| (p.0@, p.1@));
            assert(pairs.subrange(0, pairs.len() as int) =~= self.pairs());
        }
        out
    }

    /// How many pairs the map holds.
    pub fn len(&self) -> (r: usize)
        ensures
            r == self.pairs().len(),
    {
        self.headers.len()
    }

    /// The name of the pair in position `i`.
    pub fn key_at(&self, i: usize) -> (r: &String)
        requires
            i < self.pairs().len(),
        ensures
            r@ == self.pairs()[i as int].0,
    {
        &self.headers[i].0
    }

    /// The value of the pair in position `i`.
    pub fn value_at(&self, i: usize) -> (r: &String)
        requires
            i < self.pairs().len(),
        ensures
            r@ == self.pairs()[i as int].1,
    {
        &self.headers[i].1
    }

    /// Serializes the map alone, one `name: value` line per pair.
    pub fn lines(&self) -> (r: String)
        ensures
            r@ == Self::lines_spec(self.pairs()),
    {
        let r = Self::write_lines(&self.headers, 0);
        proof {
            let pairs = self.headers@.map_values(|p: (String, String)| (p.0@, p.1@));
            assert(pairs.subrange(0, pairs.len() as int) =~= self.pairs());
        }
        r
    }

    /// Serializes the pairs from `start` on, one line per pair.
    fn write_lines(headers: &Vec<(String, String)>, start: usize) -> (r: String)
        requires
            start <= headers.len(),
        ensures
            r@ == Self::lines_spec(
                headers@.map_values(|p: (String, String)| (p.0@, p.1@)).subrange(
                    start as int,
                    headers@.len() as int,
                ),
            ),
        decreases headers.len() - start,
    {
        let ghost pairs = headers@.map_values(|p: (String, String)| (p.0@, p.1@));
        if start == headers.len() {
            proof {
                assert(pairs.subrange(start as int, pairs.len() as int) =~= Seq::<
                    HeaderPair,
                >::empty());
            }
            String::new()
        } else {
            let mut out = headers[start].0.clone();
            out.append(": ");
            out.append(headers[start].1.as_str());
            out.append("\r\n");
            let rest = Self::write_lines(headers, start + 1);
            out.append(rest.as_str());
            proof {
                let tail = pairs.subrange(start as int, pairs.len() as int);
                assert(tail.drop_first() =~= pairs.subrange(start as int + 1, pairs.len() as int));
            }
            out
        }
    }
}

} // verus!

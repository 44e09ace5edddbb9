//! Request paths: splitting a request target into path and query,
//! sanitizing the path, and parsing the query into a parameter map.
use vstd::prelude::*;
use vstd::string::*;
use crate::headers::HeaderPair;
use crate::headers::Headers;
use crate::headers::upsert;
use crate::text::alphanumeric_char;
use crate::text::lowercase_of;
use crate::text::split_char;
use crate::text::split_first_spec;
use crate::text::split_once_char;
use crate::text::split_spec;

verus! {

/// A sanitized request path with its parsed query parameters.
#[derive(Clone)]
pub struct Path {
    pub path: String,
    pub params: Option<Headers>,
}

/// Whether a path segment may stay: non-empty, made only of letters,
/// digits, dashes and underscores.
pub open spec fn valid_segment(seg: Seq<char>) -> bool {
    seg.len() > 0 && (forall|i: int|
        0 <= i < seg.len() ==> alphanumeric_char(#[trigger] seg[i]) || seg[i] == '-' || seg[i]
            == '_')
}

/// The valid segments among `segs`, each in lowercase, in order.
pub open spec fn kept_lowered(segs: Seq<Seq<char>>) -> Seq<Seq<char>>
    decreases segs.len(),
{
    if segs.len() == 0 {
        Seq::<Seq<char>>::empty()
    } else if valid_segment(segs[0]) {
        seq![lowercase_of(segs[0])] + kept_lowered(segs.drop_first())
    } else {
        kept_lowered(segs.drop_first())
    }
}

/// The segments joined by a single slash.
pub open spec fn join_slash(segs: Seq<Seq<char>>) -> Seq<char>
    decreases segs.len(),
{
    if segs.len() == 0 {
        Seq::<char>::empty()
    } else if segs.len() == 1 {
        segs[0]
    } else {
        segs[0] + seq!['/'] + join_slash(segs.drop_first())
    }
}

/// What sanitizing a path yields: its valid segments, lowered and joined
/// by slashes; the bare root path when nothing remains.
pub open spec fn sanitize_spec(path: Seq<char>) -> Seq<char> {
    let joined = join_slash(kept_lowered(split_spec(path, '/')));
    if joined.len() == 0 {
        seq!['/']
    } else {
        joined
    }
}

/// The parameter map after reading `fields` in order into `pairs`: each
/// `key=value` field is set, later fields overriding earlier ones of the
/// same key, and fields without `=` are dropped.
pub open spec fn insert_query(pairs: Seq<HeaderPair>, fields: Seq<Seq<char>>) -> Seq<HeaderPair>
    decreases fields.len(),
{
    if fields.len() == 0 {
        pairs
    } else {
        let next = match split_first_spec(fields[0], '=') {
            Some(kv) => upsert(pairs, kv.0, kv.1),
            None => pairs,
        };
        insert_query(next, fields.drop_first())
    }
}

proof fn lemma_insert_query_snoc(pairs: Seq<HeaderPair>, fields: Seq<Seq<char>>, field: Seq<char>)
    ensures
        insert_query(pairs, fields.push(field)) == (match split_first_spec(field, '=') {
            Some(kv) => upsert(insert_query(pairs, fields), kv.0, kv.1),
            None => insert_query(pairs, fields),
        }),
    decreases fields.len(),
{
    let pushed = fields.push(field);
    if fields.len() == 0 {
        assert(pushed[0] == field);
        assert(pushed.drop_first() =~= Seq::<Seq<char>>::empty());
        let next = match split_first_spec(field, '=') {
            Some(kv) => upsert(pairs, kv.0, kv.1),
            None => pairs,
        };
        assert(insert_query(next, Seq::<Seq<char>>::empty()) == next);
        assert(insert_query(pairs, fields) == pairs);
    } else {
        let next = match split_first_spec(fields[0], '=') {
            Some(kv) => upsert(pairs, kv.0, kv.1),
            None => pairs,
        };
        lemma_insert_query_snoc(next, fields.drop_first(), field);
        assert(pushed[0] == fields[0]);
        assert(pushed.drop_first() =~= fields.drop_first().push(field));
    }
}

proof fn lemma_kept_lowered_snoc(segs: Seq<Seq<char>>, seg: Seq<char>)
    ensures
        kept_lowered(segs.push(seg)) == (if valid_segment(seg) {
            kept_lowered(segs).push(lowercase_of(seg))
        } else {
            kept_lowered(segs)
        }),
    decreases segs.len(),
{
    let pushed = segs.push(seg);
    assert(kept_lowered(Seq::<Seq<char>>::empty()) == Seq::<Seq<char>>::empty());
    if segs.len() == 0 {
        assert(pushed[0] == seg);
        assert(pushed.drop_first() =~= Seq::<Seq<char>>::empty());
        assert(kept_lowered(segs) == Seq::<Seq<char>>::empty());
        if valid_segment(seg) {
            assert(kept_lowered(pushed) =~= kept_lowered(segs).push(lowercase_of(seg)));
        } else {
            assert(kept_lowered(pushed) =~= kept_lowered(segs));
        }
    } else {
        lemma_kept_lowered_snoc(segs.drop_first(), seg);
        assert(pushed[0] == segs[0]);
        assert(pushed.drop_first() =~= segs.drop_first().push(seg));
        if valid_segment(seg) {
            assert(kept_lowered(pushed) =~= kept_lowered(segs).push(lowercase_of(seg)));
        } else {
            assert(kept_lowered(pushed) =~= kept_lowered(segs));
        }
    }
}

proof fn lemma_join_slash_snoc(segs: Seq<Seq<char>>, seg: Seq<char>)
    ensures
        join_slash(segs.push(seg)) == (if segs.len() == 0 {
            seg
        } else {
            join_slash(segs) + seq!['/'] + seg
        }),
    decreases segs.len(),
{
    let pushed = segs.push(seg);
    if segs.len() == 0 {
        assert(pushed[0] == seg);
        assert(join_slash(pushed) == seg);
    } else {
        lemma_join_slash_snoc(segs.drop_first(), seg);
        assert(pushed[0] == segs[0]);
        assert(pushed.drop_first() =~= segs.drop_first().push(seg));
        if segs.len() == 1 {
            assert(segs.drop_first().len() == 0);
            assert(join_slash(segs) == segs[0]);
            assert(join_slash(pushed.drop_first()) == seg);
            assert(join_slash(pushed) =~= join_slash(segs) + seq!['/'] + seg);
        } else {
            assert(join_slash(pushed) =~= join_slash(segs) + seq!['/'] + seg);
        }
    }
}

/// The path segments that may reach the public file root: parent, home
/// and current-directory segments are dropped.
pub open spec fn public_segments(segs: Seq<Seq<char>>) -> Seq<Seq<char>>
    decreases segs.len(),
{
    if segs.len() == 0 {
        Seq::<Seq<char>>::empty()
    } else if segs[0] == ".."@ || segs[0] == "~"@ || segs[0] == "."@ {
        public_segments(segs.drop_first())
    } else {
        seq![segs[0]] + public_segments(segs.drop_first())
    }
}

proof fn lemma_public_segments_snoc(segs: Seq<Seq<char>>, seg: Seq<char>)
    ensures
        public_segments(segs.push(seg)) == (if seg == ".."@ || seg == "~"@ || seg == "."@ {
            public_segments(segs)
        } else {
            public_segments(segs).push(seg)
        }),
    decreases segs.len(),
{
    let pushed = segs.push(seg);
    assert(public_segments(Seq::<Seq<char>>::empty()) == Seq::<Seq<char>>::empty());
    if segs.len() == 0 {
        assert(pushed[0] == seg);
        assert(pushed.drop_first() =~= Seq::<Seq<char>>::empty());
        assert(public_segments(segs) == Seq::<Seq<char>>::empty());
        if !(seg == ".."@ || seg == "~"@ || seg == "."@) {
            assert(public_segments(pushed) =~= public_segments(segs).push(seg));
        }
    } else {
        lemma_public_segments_snoc(segs.drop_first(), seg);
        assert(pushed[0] == segs[0]);
        assert(pushed.drop_first() =~= segs.drop_first().push(seg));
        if !(seg == ".."@ || seg == "~"@ || seg == "."@) {
            assert(public_segments(pushed) =~= public_segments(segs).push(seg));
        } else {
            assert(public_segments(pushed) =~= public_segments(segs));
        }
    }
}

/// No parent-directory segment survives the filter, so a public path
/// never climbs out of the public root.
pub proof fn lemma_public_segments_no_escape(segs: Seq<Seq<char>>)
    ensures
        forall|i: int|
            0 <= i < public_segments(segs).len() ==> #[trigger] public_segments(segs)[i] != ".."@,
    decreases segs.len(),
{
    if segs.len() > 0 {
        lemma_public_segments_no_escape(segs.drop_first());
        if !(segs[0] == ".."@ || segs[0] == "~"@ || segs[0] == "."@) {
            assert forall|i: int| 0 <= i < public_segments(segs).len() implies #[trigger] public_segments(
                segs,
            )[i] != ".."@ by {
                if i > 0 {
                    assert(public_segments(segs)[i] == public_segments(segs.drop_first())[i - 1]);
                }
            }
        }
    }
}

/// Maps a request path under the public file root: the path is trimmed,
/// split at slashes, stripped of parent, home and current-directory
/// segments, and rejoined under the fixed public prefix.
#[verifier::loop_isolation(false)]
pub fn public_path(path: &str) -> (r: String)
    ensures
        r@ == "./src/public/"@ + join_slash(
            public_segments(split_spec(crate::text::trim_spec(path@), '/')),
        ),
{
    let trimmed = crate::text::trim(path);
    let parts = split_char(trimmed.as_str(), '/');
    let ghost segs = split_spec(crate::text::trim_spec(path@), '/');
    let mut kept: Vec<String> = Vec::new();
    let mut i: usize = 0;
    proof {
        assert(segs.subrange(0, 0) =~= Seq::<Seq<char>>::empty());
        assert(kept@.map_values(|s: String| s@) =~= public_segments(segs.subrange(0, 0)));
    }
    while i < parts.len()
        invariant
            0 <= i <= parts.len(),
            kept@.map_values(|s: String| s@) == public_segments(segs.subrange(0, i as int)),
        decreases parts.len() - i,
    {
        let ghost done = segs.subrange(0, i as int);
        proof {
            lemma_public_segments_snoc(done, segs[i as int]);
            assert(done.push(segs[i as int]) =~= segs.subrange(0, i as int + 1));
            assert(parts@.map_values(|t: String| t@)[i as int] == segs[i as int]);
        }
        let part = &parts[i];
        if !(*part == "..".to_owned() || *part == "~".to_owned() || *part == ".".to_owned()) {
            let keep = part.clone();
            proof {
                assert((kept@ + seq![keep]).map_values(|s: String| s@) =~= kept@.map_values(
                    |s: String| s@,
                ).push(keep@));
                assert(kept@.push(keep) =~= kept@ + seq![keep]);
            }
            kept.push(keep);
        }
        i = i + 1;
    }
    proof {
        assert(segs.subrange(0, parts@.len() as int) =~= segs);
    }
    let mut out = "./src/public/".to_owned();
    let mut j: usize = 0;
    proof {
        let views = kept@.map_values(|s: String| s@);
        assert(views.subrange(0, 0) =~= Seq::<Seq<char>>::empty());
    }
    while j < kept.len()
        invariant
            0 <= j <= kept.len(),
            out@ == "./src/public/"@ + join_slash(
                kept@.map_values(|s: String| s@).subrange(0, j as int),
            ),
        decreases kept.len() - j,
    {
        let ghost views = kept@.map_values(|s: String| s@);
        let ghost done = views.subrange(0, j as int);
        proof {
            lemma_join_slash_snoc(done, views[j as int]);
            assert(done.push(views[j as int]) =~= views.subrange(0, j as int + 1));
        }
        if j > 0 {
            out.append("/");
            proof {
                reveal_strlit("/");
                assert("/"@ =~= seq!['/']);
            }
        }
        out.append(kept[j].as_str());
        j = j + 1;
    }
    proof {
        let views = kept@.map_values(|s: String| s@);
        assert(views.subrange(0, kept@.len() as int) =~= views);
    }
    out
}

/// Splits a request target at its first question mark into the path and
/// the query, if one is present.
pub fn split_path_and_params(path_str: &str) -> (r: (String, Option<String>))
    ensures
        match split_first_spec(path_str@, '?') {
            Some(pair) => r.0@ == pair.0 && (r.1 matches Some(q) && q@ == pair.1),
            None => r.0@ == path_str@ && r.1 is None,
        },
{
    match split_once_char(path_str, '?') {
        Some((path, query)) => (path, Some(query)),
        None => (path_str.to_owned(), None),
    }
}

/// Whether a path segment may stay: non-empty and made only of
/// alphanumeric characters, dashes and underscores.
pub fn is_valid_path(segment: &str) -> (r: bool)
    ensures
        r == valid_segment(segment@),
{
    let n = segment.unicode_len();
    if n == 0 {
        return false;
    }
    let mut i: usize = 0;
    while i < n
        invariant
            0 <= i <= n == segment@.len(),
            forall|k: int|
                0 <= k < i ==> alphanumeric_char(#[trigger] segment@[k]) || segment@[k] == '-'
                    || segment@[k] == '_',
        decreases n - i,
    {
        let c = segment.get_char(i);
        if !(c.is_alphanumeric() || c == '-' || c == '_') {
            return false;
        }
        i = i + 1;
    }
    true
}

/// Sanitizes a path: drops segments that are empty or hold anything but
/// letters, digits, dashes and underscores, lowers the rest, and joins
/// them with slashes; a path with nothing left becomes the root path.
#[verifier::loop_isolation(false)]
pub fn sanitize_path(path: &str) -> (r: String)
    ensures
        r@ == sanitize_spec(path@),
{
    let parts = split_char(path, '/');
    let ghost segs = split_spec(path@, '/');
    let mut kept: Vec<String> = Vec::new();
    let mut i: usize = 0;
    proof {
        assert(segs.subrange(0, 0) =~= Seq::<Seq<char>>::empty());
        assert(kept@.map_values(|s: String| s@) =~= kept_lowered(segs.subrange(0, 0)));
    }
    while i < parts.len()
        invariant
            0 <= i <= parts.len(),
            kept@.map_values(|s: String| s@) == kept_lowered(segs.subrange(0, i as int)),
        decreases parts.len() - i,
    {
        let ghost done = segs.subrange(0, i as int);
        proof {
            lemma_kept_lowered_snoc(done, segs[i as int]);
            assert(done.push(segs[i as int]) =~= segs.subrange(0, i as int + 1));
            assert(parts@.map_values(|t: String| t@)[i as int] == segs[i as int]);
        }
        if is_valid_path(parts[i].as_str()) {
            let lowered = parts[i].as_str().to_lowercase();
            proof {
                assert((kept@ + seq![lowered]).map_values(|s: String| s@) =~= kept@.map_values(
                    |s: String| s@,
                ).push(lowered@));
                assert(kept@.push(lowered) =~= kept@ + seq![lowered]);
            }
            kept.push(lowered);
        }
        i = i + 1;
    }
    proof {
        assert(segs.subrange(0, parts@.len() as int) =~= segs);
    }
    let mut out = String::new();
    let mut j: usize = 0;
    proof {
        let views = kept@.map_values(|s: String| s@);
        assert(views.subrange(0, 0) =~= Seq::<Seq<char>>::empty());
    }
    while j < kept.len()
        invariant
            0 <= j <= kept.len(),
            out@ == join_slash(kept@.map_values(|s: String| s@).subrange(0, j as int)),
        decreases kept.len() - j,
    {
        let ghost views = kept@.map_values(|s: String| s@);
        let ghost done = views.subrange(0, j as int);
        proof {
            lemma_join_slash_snoc(done, views[j as int]);
            assert(done.push(views[j as int]) =~= views.subrange(0, j as int + 1));
        }
        if j > 0 {
            out.append("/");
            proof {
                reveal_strlit("/");
                assert("/"@ =~= seq!['/']);
            }
        }
        out.append(kept[j].as_str());
        j = j + 1;
    }
    proof {
        let views = kept@.map_values(|s: String| s@);
        assert(views.subrange(0, kept@.len() as int) =~= views);
    }
    if out.as_str().unicode_len() == 0 {
        let root = "/".to_owned();
        proof {
            reveal_strlit("/");
            assert(root@ =~= seq!['/']);
        }
        root
    } else {
        out
    }
}

/// Parses a query string into its parameter map: `key=value` fields
/// separated by ampersands, the last field for a key winning; nothing
/// when no query is present or it is empty.
#[verifier::loop_isolation(false)]
pub fn parse_query(query_str: Option<&str>) -> (r: Option<Headers>)
    ensures
        match query_str {
            None => r is None,
            Some(q) => {
                if q@.len() == 0 {
                    r is None
                } else {
                    r matches Some(params) && params.pairs() == insert_query(
                        Seq::<HeaderPair>::empty(),
                        split_spec(q@, '&'),
                    ) && params.wf()
                }
            },
        },
{
    let query = match query_str {
        Some(q) => q,
        None => {
            return None;
        },
    };
    if query.unicode_len() == 0 {
        return None;
    }
    let fields = split_char(query, '&');
    let ghost field_views = split_spec(query@, '&');
    let mut params = Headers::empty();
    let mut i: usize = 0;
    proof {
        assert(field_views.subrange(0, 0) =~= Seq::<Seq<char>>::empty());
    }
    while i < fields.len()
        invariant
            0 <= i <= fields.len(),
            params.wf(),
            params.pairs() == insert_query(
                Seq::<HeaderPair>::empty(),
                field_views.subrange(0, i as int),
            ),
        decreases fields.len() - i,
    {
        let ghost done = field_views.subrange(0, i as int);
        proof {
            lemma_insert_query_snoc(Seq::<HeaderPair>::empty(), done, field_views[i as int]);
            assert(done.push(field_views[i as int]) =~= field_views.subrange(0, i as int + 1));
            assert(fields@.map_values(|t: String| t@)[i as int] == field_views[i as int]);
        }
        match split_once_char(fields[i].as_str(), '=') {
            Some((key, value)) => {
                params.set(key, value);
            },
            None => (),
        }
        i = i + 1;
    }
    proof {
        assert(field_views.subrange(0, fields@.len() as int) =~= field_views);
    }
    Some(params)
}

impl Path {
    /// The parameter fields as `key=value` joined by ampersands.
    pub open spec fn params_str(pairs: Seq<HeaderPair>) -> Seq<char>
        decreases pairs.len(),
    {
        if pairs.len() == 0 {
            Seq::<char>::empty()
        } else if pairs.len() == 1 {
            pairs[0].0 + seq!['='] + pairs[0].1
        } else {
            pairs[0].0 + seq!['='] + pairs[0].1 + seq!['&'] + Self::params_str(pairs.drop_first())
        }
    }

    /// The whole target this path stands for: the path, then the query
    /// when parameters are present.
    pub open spec fn to_string_spec(&self) -> Seq<char> {
        match self.params {
            Some(params) => self.path@ + seq!['?'] + Self::params_str(params.pairs()),
            None => self.path@,
        }
    }

    /// Parses and sanitizes a request target.
    pub fn from(path_str: &str) -> (r: Path)
        ensures
            ({
                let split = split_first_spec(path_str@, '?');
                match split {
                    Some(pair) => {
                        &&& r.path@ == sanitize_spec(pair.0)
                        &&& (if pair.1.len() == 0 {
                            r.params is None
                        } else {
                            r.params matches Some(params) && params.pairs() == insert_query(
                                Seq::<HeaderPair>::empty(),
                                split_spec(pair.1, '&'),
                            )
                        })
                    },
                    None => r.path@ == sanitize_spec(path_str@) && r.params is None,
                }
            }),
    {
        let (path_part, query_part) = split_path_and_params(path_str);
        let path = sanitize_path(path_part.as_str());
        let params = match &query_part {
            Some(q) => parse_query(Some(q.as_str())),
            None => parse_query(None),
        };
        Path { path, params }
    }

    /// Serializes the path with its query.
    #[verifier::loop_isolation(false)]
    pub fn to_string(&self) -> (r: String)
        ensures
            r@ == self.to_string_spec(),
    {
        match &self.params {
            None => self.path.clone(),
            Some(params) => {
                let mut out = self.path.clone();
                out.append("?");
                proof {
                    reveal_strlit("?");
                    assert(out@ =~= self.path@ + seq!['?']);
                }
                let n = params.len();
                let mut i: usize = 0;
                while i < n
                    invariant
                        0 <= i <= n == params.pairs().len(),
                        out@ == self.path@ + seq!['?'] + Self::params_str(
                            params.pairs().take(i as int),
                        ),
                    decreases n - i,
                {
                    proof {
                        lemma_params_str_snoc(params.pairs(), i as int);
                    }
                    if i > 0 {
                        out.append("&");
                        proof {
                            reveal_strlit("&");
                            assert("&"@ =~= seq!['&']);
                        }
                    }
                    out.append(params.key_at(i).as_str());
                    out.append("=");
                    proof {
                        reveal_strlit("=");
                        assert("="@ =~= seq!['=']);
                    }
                    out.append(params.value_at(i).as_str());
                    i = i + 1;
                }
                proof {
                    assert(params.pairs().take(n as int) =~= params.pairs());
                }
                out
            },
        }
    }
}

proof fn lemma_params_str_snoc(pairs: Seq<HeaderPair>, i: int)
    requires
        0 <= i < pairs.len(),
    ensures
        Path::params_str(pairs.take(i + 1)) == (if i == 0 {
            pairs[0].0 + seq!['='] + pairs[0].1
        } else {
            Path::params_str(pairs.take(i)) + seq!['&'] + (pairs[i].0 + seq!['='] + pairs[i].1)
        }),
    decreases i,
{
    if i == 0 {
        assert(pairs.take(1)[0] == pairs[0]);
        assert(Path::params_str(pairs.take(1)) =~= pairs[0].0 + seq!['='] + pairs[0].1);
    } else {
        lemma_params_str_snoc(pairs.drop_first(), i - 1);
        assert(pairs.take(i + 1)[0] == pairs[0]);
        assert(pairs.take(i + 1).drop_first() =~= pairs.drop_first().take(i));
        assert(pairs.take(i).drop_first() =~= pairs.drop_first().take(i - 1));
        assert(pairs.take(i)[0] == pairs[0]);
        assert(pairs.drop_first()[i - 1] == pairs[i]);
        assert(Path::params_str(pairs.take(i + 1)) =~= Path::params_str(pairs.take(i)) + seq!['&']
            + (pairs[i].0 + seq!['='] + pairs[i].1));
    }
}

} // verus!

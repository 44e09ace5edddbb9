//! Verified text utilities shared by the message model: decimal formatting,
//! trimming, splitting, and the character classes the parsers rely on.
use vstd::prelude::*;
use vstd::string::*;

verus! {

// ---------------------------------------------------------------------------
// Character classes taken on trust from the standard library.
// ---------------------------------------------------------------------------

/// Whether a character has the Unicode whitespace property.
pub uninterp spec fn whitespace_char(c: char) -> bool;

/// Relies on char::is_whitespace: whether `c` has the Unicode property
/// White_Space, a function of the character alone.
pub assume_specification[ char::is_whitespace ](c: char) -> (r: bool)
    ensures
        r == whitespace_char(c),
;

/// Whether a character is a Unicode letter or digit.
pub uninterp spec fn alphanumeric_char(c: char) -> bool;

/// Relies on char::is_alphanumeric: whether `c` is in the Unicode categories
/// Alphabetic or Nd/Nl/No, a function of the character alone.
pub assume_specification[ char::is_alphanumeric ](c: char) -> (r: bool)
    ensures
        r == alphanumeric_char(c),
;

/// The Unicode lowercase form of a sequence of characters.
pub uninterp spec fn lowercase_of(s: Seq<char>) -> Seq<char>;

/// Relies on str::to_lowercase: the result is the Unicode lowercase form of
/// the input, a function of the characters alone.
pub assume_specification[ str::to_lowercase ](s: &str) -> (r: String)
    ensures
        r@ == lowercase_of(s@),
;

/// The ASCII uppercase form of one character: letters `a` to `z` map to
/// `A` to `Z`; everything else is unchanged.
pub open spec fn ascii_upper_char(c: char) -> char {
    if 'a' <= c && c <= 'z' {
        ((c as u32) - 32) as char
    } else {
        c
    }
}

/// Relies on str::to_ascii_uppercase: ASCII letters are mapped to upper case
/// and all other characters are unchanged.
pub assume_specification[ str::to_ascii_uppercase ](s: &str) -> (r: String)
    ensures
        r@ == s@.map_values(|c: char| ascii_upper_char(c)),
;

// ---------------------------------------------------------------------------
// Decimal formatting.
// ---------------------------------------------------------------------------

/// The decimal digit character for a value below ten.
pub open spec fn digit_char(d: nat) -> char {
    if d == 0 {
        '0'
    } else if d == 1 {
        '1'
    } else if d == 2 {
        '2'
    } else if d == 3 {
        '3'
    } else if d == 4 {
        '4'
    } else if d == 5 {
        '5'
    } else if d == 6 {
        '6'
    } else if d == 7 {
        '7'
    } else if d == 8 {
        '8'
    } else {
        '9'
    }
}

/// The decimal digits of `n`, most significant first.
pub open spec fn dec_digits(n: nat) -> Seq<char>
    decreases n,
{
    if n < 10 {
        seq![digit_char(n)]
    } else {
        dec_digits(n / 10).push(digit_char(n % 10))
    }
}

/// The string slice holding one decimal digit.
fn digit_str(d: u64) -> (r: &'static str)
    requires
        d < 10,
    ensures
        r@ == seq![digit_char(d as nat)],
{
    proof {
        reveal_strlit("0");
        reveal_strlit("1");
        reveal_strlit("2");
        reveal_strlit("3");
        reveal_strlit("4");
        reveal_strlit("5");
        reveal_strlit("6");
        reveal_strlit("7");
        reveal_strlit("8");
        reveal_strlit("9");
    }
    if d == 0 {
        "0"
    } else if d == 1 {
        "1"
    } else if d == 2 {
        "2"
    } else if d == 3 {
        "3"
    } else if d == 4 {
        "4"
    } else if d == 5 {
        "5"
    } else if d == 6 {
        "6"
    } else if d == 7 {
        "7"
    } else if d == 8 {
        "8"
    } else {
        "9"
    }
}

/// Renders `n` in decimal, most significant digit first.
pub fn u64_to_string(n: u64) -> (r: String)
    ensures
        r@ == dec_digits(n as nat),
    decreases n,
{
    if n < 10 {
        digit_str(n).to_owned()
    } else {
        let mut prefix = u64_to_string(n / 10);
        prefix.append(digit_str(n % 10));
        prefix
    }
}

// ---------------------------------------------------------------------------
// Trimming.
// ---------------------------------------------------------------------------

/// `s` with its leading whitespace removed.
pub open spec fn trim_start_spec(s: Seq<char>) -> Seq<char>
    decreases s.len(),
{
    if s.len() > 0 && whitespace_char(s[0]) {
        trim_start_spec(s.drop_first())
    } else {
        s
    }
}

/// `s` with its trailing whitespace removed.
pub open spec fn trim_end_spec(s: Seq<char>) -> Seq<char>
    decreases s.len(),
{
    if s.len() > 0 && whitespace_char(s.last()) {
        trim_end_spec(s.drop_last())
    } else {
        s
    }
}

/// `s` with leading and trailing whitespace removed.
pub open spec fn trim_spec(s: Seq<char>) -> Seq<char> {
    trim_end_spec(trim_start_spec(s))
}

proof fn lemma_trim_start_at(s: Seq<char>, i: int)
    requires
        0 <= i <= s.len(),
        forall|k: int| 0 <= k < i ==> whitespace_char(s[k]),
        i < s.len() ==> !whitespace_char(s[i]),
    ensures
        trim_start_spec(s) == s.subrange(i, s.len() as int),
    decreases i,
{
    if i == 0 {
        assert(trim_start_spec(s) =~= s.subrange(0, s.len() as int));
    } else {
        lemma_trim_start_at(s.drop_first(), i - 1);
        assert(s.drop_first().subrange(i - 1, s.drop_first().len() as int) =~= s.subrange(
            i,
            s.len() as int,
        ));
    }
}

proof fn lemma_trim_end_at(s: Seq<char>, j: int)
    requires
        0 <= j <= s.len(),
        forall|k: int| j <= k < s.len() ==> whitespace_char(s[k]),
        j > 0 ==> !whitespace_char(s[j - 1]),
    ensures
        trim_end_spec(s) == s.subrange(0, j),
    decreases s.len() - j,
{
    if j == s.len() {
        assert(trim_end_spec(s) =~= s.subrange(0, j));
    } else {
        lemma_trim_end_at(s.drop_last(), j);
        assert(s.drop_last().subrange(0, j) =~= s.subrange(0, j));
    }
}

/// Removes leading and trailing whitespace.
pub fn trim(s: &str) -> (r: String)
    ensures
        r@ == trim_spec(s@),
{
    let n = s.unicode_len();
    let mut i: usize = 0;
    while i < n && s.get_char(i).is_whitespace()
        invariant
            0 <= i <= n == s@.len(),
            forall|k: int| 0 <= k < i ==> whitespace_char(s@[k]),
        decreases n - i,
    {
        i = i + 1;
    }
    proof {
        lemma_trim_start_at(s@, i as int);
    }
    let mut j: usize = n;
    while j > i && s.get_char(j - 1).is_whitespace()
        invariant
            i <= j <= n == s@.len(),
            forall|k: int| j <= k < n ==> whitespace_char(s@[k]),
        decreases j,
    {
        j = j - 1;
    }
    proof {
        let t = s@.subrange(i as int, n as int);
        assert(forall|k: int| j - i <= k < t.len() ==> whitespace_char(t[k]));
        lemma_trim_end_at(t, j - i);
        assert(t.subrange(0, j - i) =~= s@.subrange(i as int, j as int));
    }
    s.substring_char(i, j).to_owned()
}

// ---------------------------------------------------------------------------
// Searching and splitting.
// ---------------------------------------------------------------------------

/// The index of the first occurrence of `sep`, if there is one.
pub fn find_char(s: &str, sep: char) -> (r: Option<usize>)
    ensures
        match r {
            Some(i) => i < s@.len() && s@[i as int] == sep && (forall|k: int|
                0 <= k < i ==> s@[k] != sep),
            None => forall|k: int| 0 <= k < s@.len() ==> s@[k] != sep,
        },
{
    let n = s.unicode_len();
    let mut i: usize = 0;
    while i < n
        invariant
            0 <= i <= n == s@.len(),
            forall|k: int| 0 <= k < i ==> s@[k] != sep,
        decreases n - i,
    {
        if s.get_char(i) == sep {
            return Some(i);
        }
        i = i + 1;
    }
    None
}

/// What comes before and after the first occurrence of `sep`, if any.
pub open spec fn split_first_spec(s: Seq<char>, sep: char) -> Option<(Seq<char>, Seq<char>)>
    decreases s.len(),
{
    if s.len() == 0 {
        None
    } else if s[0] == sep {
        Some((Seq::<char>::empty(), s.drop_first()))
    } else {
        match split_first_spec(s.drop_first(), sep) {
            None => None,
            Some(pair) => Some((seq![s[0]] + pair.0, pair.1)),
        }
    }
}

proof fn lemma_split_first_at(s: Seq<char>, sep: char, i: int)
    requires
        0 <= i < s.len(),
        s[i] == sep,
        forall|k: int| 0 <= k < i ==> s[k] != sep,
    ensures
        split_first_spec(s, sep) == Some((s.subrange(0, i), s.subrange(i + 1, s.len() as int))),
    decreases i,
{
    if i == 0 {
        assert(s.subrange(0, 0) =~= Seq::<char>::empty());
        assert(s.subrange(1, s.len() as int) =~= s.drop_first());
    } else {
        lemma_split_first_at(s.drop_first(), sep, i - 1);
        assert(seq![s[0]] + s.drop_first().subrange(0, i - 1) =~= s.subrange(0, i));
        assert(s.drop_first().subrange(i, s.drop_first().len() as int) =~= s.subrange(
            i + 1,
            s.len() as int,
        ));
    }
}

proof fn lemma_split_first_none(s: Seq<char>, sep: char)
    requires
        forall|k: int| 0 <= k < s.len() ==> s[k] != sep,
    ensures
        split_first_spec(s, sep) is None,
    decreases s.len(),
{
    if s.len() > 0 {
        lemma_split_first_none(s.drop_first(), sep);
    }
}

/// Splits on the first occurrence of `sep`; `None` when `sep` is absent.
pub fn split_once_char(s: &str, sep: char) -> (r: Option<(String, String)>)
    ensures
        match r {
            Some(pair) => split_first_spec(s@, sep) == Some((pair.0@, pair.1@)),
            None => split_first_spec(s@, sep) is None,
        },
{
    match find_char(s, sep) {
        Some(i) => {
            let n = s.unicode_len();
            let before = s.substring_char(0, i).to_owned();
            let after = s.substring_char(i + 1, n).to_owned();
            proof {
                lemma_split_first_at(s@, sep, i as int);
            }
            Some((before, after))
        },
        None => {
            proof {
                lemma_split_first_none(s@, sep);
            }
            None
        },
    }
}

/// The fields of `s` separated by `sep`: splitting on every occurrence,
/// keeping empty fields, as an ordinary single-character split does.
pub open spec fn split_spec(s: Seq<char>, sep: char) -> Seq<Seq<char>>
    decreases s.len(),
{
    if s.len() == 0 {
        seq![Seq::<char>::empty()]
    } else if s[0] == sep {
        seq![Seq::<char>::empty()] + split_spec(s.drop_first(), sep)
    } else {
        seq![seq![s[0]] + split_spec(s.drop_first(), sep)[0]] + split_spec(
            s.drop_first(),
            sep,
        ).drop_first()
    }
}

/// A split has at least the one field that holds the rest of the input.
pub proof fn lemma_split_nonempty(s: Seq<char>, sep: char)
    ensures
        split_spec(s, sep).len() >= 1,
    decreases s.len(),
{
    if s.len() > 0 {
        lemma_split_nonempty(s.drop_first(), sep);
    }
}

/// Input without the separator splits into the single field that is the
/// input itself.
proof fn lemma_split_no_sep(s: Seq<char>, sep: char)
    requires
        forall|k: int| 0 <= k < s.len() ==> s[k] != sep,
    ensures
        split_spec(s, sep) == seq![s],
    decreases s.len(),
{
    if s.len() == 0 {
        assert(split_spec(s, sep) =~~= seq![s]);
    } else {
        lemma_split_no_sep(s.drop_first(), sep);
        assert(seq![s[0]] + s.drop_first() =~= s);
        assert(split_spec(s, sep) =~~= seq![s]);
    }
}

/// Splitting at the first separator: the field before it, then the split of
/// what follows it.
proof fn lemma_split_at_first(s: Seq<char>, sep: char, p: int)
    requires
        0 <= p < s.len(),
        s[p] == sep,
        forall|k: int| 0 <= k < p ==> s[k] != sep,
    ensures
        split_spec(s, sep) == seq![s.subrange(0, p)] + split_spec(
            s.subrange(p + 1, s.len() as int),
            sep,
        ),
    decreases p,
{
    if p == 0 {
        assert(s.drop_first() =~= s.subrange(1, s.len() as int));
        assert(s.subrange(0, 0) =~= Seq::<char>::empty());
        assert(split_spec(s, sep) =~~= seq![s.subrange(0, 0)] + split_spec(
            s.subrange(1, s.len() as int),
            sep,
        ));
    } else {
        lemma_split_at_first(s.drop_first(), sep, p - 1);
        lemma_split_nonempty(s.subrange(p + 1, s.len() as int), sep);
        assert(s.drop_first().subrange(0, p - 1) =~= s.subrange(1, p));
        assert(s.drop_first().subrange(p, s.drop_first().len() as int) =~= s.subrange(
            p + 1,
            s.len() as int,
        ));
        assert(seq![s[0]] + s.subrange(1, p) =~= s.subrange(0, p));
        assert(split_spec(s, sep) =~~= seq![s.subrange(0, p)] + split_spec(
            s.subrange(p + 1, s.len() as int),
            sep,
        ));
    }
}

/// Splits `s` on every occurrence of `sep`, keeping empty fields.
pub fn split_char(s: &str, sep: char) -> (r: Vec<String>)
    ensures
        r@.map_values(|t: String| t@) == split_spec(s@, sep),
{
    let n = s.unicode_len();
    let mut out: Vec<String> = Vec::new();
    let mut start: usize = 0;
    let mut i: usize = 0;
    proof {
        assert(s@.subrange(0, n as int) =~= s@);
    }
    while i < n
        invariant
            0 <= start <= i <= n == s@.len(),
            forall|k: int| start <= k < i ==> s@[k] != sep,
            split_spec(s@, sep) == out@.map_values(|t: String| t@) + split_spec(
                s@.subrange(start as int, n as int),
                sep,
            ),
        decreases n - i,
    {
        if s.get_char(i) == sep {
            let field = s.substring_char(start, i).to_owned();
            proof {
                let t = s@.subrange(start as int, n as int);
                lemma_split_at_first(t, sep, i - start);
                assert(t.subrange(0, i - start) =~= s@.subrange(start as int, i as int));
                assert(t.subrange(i - start + 1, t.len() as int) =~= s@.subrange(
                    i as int + 1,
                    n as int,
                ));
                assert((out@ + seq![field]).map_values(|t: String| t@) =~= out@.map_values(
                    |t: String| t@,
                ) + seq![field@]);
                assert(out@.push(field) =~= out@ + seq![field]);
            }
            out.push(field);
            start = i + 1;
        }
        i = i + 1;
    }
    let field = s.substring_char(start, n).to_owned();
    proof {
        let t = s@.subrange(start as int, n as int);
        lemma_split_no_sep(t, sep);
        assert((out@ + seq![field]).map_values(|t: String| t@) =~= out@.map_values(|t: String| t@)
            + seq![field@]);
        assert(out@.push(field) =~= out@ + seq![field]);
    }
    out.push(field);
    proof {
        assert(out@.map_values(|t: String| t@) =~= split_spec(s@, sep));
    }
    out
}

/// Whether `s` ends with `suffix`.
pub fn ends_with(s: &str, suffix: &str) -> (r: bool)
    ensures
        r == (s@.len() >= suffix@.len() && s@.subrange(
            s@.len() - suffix@.len(),
            s@.len() as int,
        ) == suffix@),
{
    let n = s.unicode_len();
    let m = suffix.unicode_len();
    if n < m {
        return false;
    }
    let mut i: usize = 0;
    while i < m
        invariant
            0 <= i <= m == suffix@.len(),
            m <= n == s@.len(),
            forall|k: int| 0 <= k < i ==> s@[s@.len() - suffix@.len() + k] == suffix@[k],
        decreases m - i,
    {
        if s.get_char(n - m + i) != suffix.get_char(i) {
            proof {
                assert(s@.subrange(s@.len() - suffix@.len(), s@.len() as int)[i as int]
                    == s@[s@.len() - suffix@.len() + i]);
            }
            return false;
        }
        i = i + 1;
    }
    proof {
        assert(s@.subrange(s@.len() - suffix@.len(), s@.len() as int) =~= suffix@);
    }
    true
}

/// Whether a command-line token is a flag: it starts with a dash.
pub fn is_token(token: &str) -> (r: bool)
    ensures
        r == (token@.len() > 0 && token@[0] == '-'),
{
    if token.unicode_len() == 0 {
        false
    } else {
        token.get_char(0) == '-'
    }
}

// ---------------------------------------------------------------------------
// Line-ending helpers.
// ---------------------------------------------------------------------------

/// `s` with every trailing carriage-return/newline pair removed.
pub open spec fn trim_crlf_end_spec(s: Seq<char>) -> Seq<char>
    decreases s.len(),
{
    if s.len() >= 2 && s[s.len() - 2] == '\r' && s[s.len() - 1] == '\n' {
        trim_crlf_end_spec(s.take(s.len() - 2))
    } else {
        s
    }
}

/// Removes every trailing carriage-return/newline pair.
pub fn trim_crlf_end(s: &str) -> (r: String)
    ensures
        r@ == trim_crlf_end_spec(s@),
{
    let n = s.unicode_len();
    let mut end: usize = n;
    proof {
        assert(s@.subrange(0, n as int) =~= s@);
    }
    while end >= 2 && s.get_char(end - 2) == '\r' && s.get_char(end - 1) == '\n'
        invariant
            0 <= end <= n == s@.len(),
            trim_crlf_end_spec(s@) == trim_crlf_end_spec(s@.subrange(0, end as int)),
        decreases end,
    {
        proof {
            let t = s@.subrange(0, end as int);
            assert(t.take(t.len() - 2) =~= s@.subrange(0, end - 2));
        }
        end = end - 2;
    }
    let r = s.substring_char(0, end).to_owned();
    proof {
        assert(trim_crlf_end_spec(s@.subrange(0, end as int)) == s@.subrange(0, end as int));
    }
    r
}

} // verus!

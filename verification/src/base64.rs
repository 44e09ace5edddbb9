//! Base64 encoding and decoding over the standard alphabet.
use vstd::prelude::*;
use vstd::string::*;

verus! {

/// The standard base64 alphabet, in value order.
pub open spec fn b64_alphabet() -> Seq<char> {
    seq!['A', 'B', 'C', 'D', 'E', 'F', 'G', 'H', 'I', 'J', 'K', 'L', 'M', 'N', 'O', 'P', 'Q', 'R', 'S', 'T', 'U', 'V', 'W', 'X', 'Y', 'Z', 'a', 'b', 'c', 'd', 'e', 'f', 'g', 'h', 'i', 'j', 'k', 'l', 'm', 'n', 'o', 'p', 'q', 'r', 's', 't', 'u', 'v', 'w', 'x', 'y', 'z', '0', '1', '2', '3', '4', '5', '6', '7', '8', '9', '+', '/']
}

/// The alphabet character for a six-bit value.
pub open spec fn b64_char(v: int) -> char {
    b64_alphabet()[v]
}

/// The string slice holding the alphabet character for `v`.
fn b64_char_str(v: u8) -> (r: &'static str)
    requires
        v < 64,
    ensures
        r@ == seq![b64_char(v as int)],
{
    proof {
        reveal_strlit("A");
        reveal_strlit("B");
        reveal_strlit("C");
        reveal_strlit("D");
        reveal_strlit("E");
        reveal_strlit("F");
        reveal_strlit("G");
        reveal_strlit("H");
        reveal_strlit("I");
        reveal_strlit("J");
        reveal_strlit("K");
        reveal_strlit("L");
        reveal_strlit("M");
        reveal_strlit("N");
        reveal_strlit("O");
        reveal_strlit("P");
        reveal_strlit("Q");
        reveal_strlit("R");
        reveal_strlit("S");
        reveal_strlit("T");
        reveal_strlit("U");
        reveal_strlit("V");
        reveal_strlit("W");
        reveal_strlit("X");
        reveal_strlit("Y");
        reveal_strlit("Z");
        reveal_strlit("a");
        reveal_strlit("b");
        reveal_strlit("c");
        reveal_strlit("d");
        reveal_strlit("e");
        reveal_strlit("f");
        reveal_strlit("g");
        reveal_strlit("h");
        reveal_strlit("i");
        reveal_strlit("j");
        reveal_strlit("k");
        reveal_strlit("l");
        reveal_strlit("m");
        reveal_strlit("n");
        reveal_strlit("o");
        reveal_strlit("p");
        reveal_strlit("q");
        reveal_strlit("r");
        reveal_strlit("s");
        reveal_strlit("t");
        reveal_strlit("u");
        reveal_strlit("v");
        reveal_strlit("w");
        reveal_strlit("x");
        reveal_strlit("y");
        reveal_strlit("z");
        reveal_strlit("0");
        reveal_strlit("1");
        reveal_strlit("2");
        reveal_strlit("3");
        reveal_strlit("4");
        reveal_strlit("5");
        reveal_strlit("6");
        reveal_strlit("7");
        reveal_strlit("8");
        reveal_strlit("9");
        reveal_strlit("+");
        reveal_strlit("/");
    }
    let r: &'static str = if v == 0 {
        "A"
    } else if v == 1 {
        "B"
    } else if v == 2 {
        "C"
    } else if v == 3 {
        "D"
    } else if v == 4 {
        "E"
    } else if v == 5 {
        "F"
    } else if v == 6 {
        "G"
    } else if v == 7 {
        "H"
    } else if v == 8 {
        "I"
    } else if v == 9 {
        "J"
    } else if v == 10 {
        "K"
    } else if v == 11 {
        "L"
    } else if v == 12 {
        "M"
    } else if v == 13 {
        "N"
    } else if v == 14 {
        "O"
    } else if v == 15 {
        "P"
    } else if v == 16 {
        "Q"
    } else if v == 17 {
        "R"
    } else if v == 18 {
        "S"
    } else if v == 19 {
        "T"
    } else if v == 20 {
        "U"
    } else if v == 21 {
        "V"
    } else if v == 22 {
        "W"
    } else if v == 23 {
        "X"
    } else if v == 24 {
        "Y"
    } else if v == 25 {
        "Z"
    } else if v == 26 {
        "a"
    } else if v == 27 {
        "b"
    } else if v == 28 {
        "c"
    } else if v == 29 {
        "d"
    } else if v == 30 {
        "e"
    } else if v == 31 {
        "f"
    } else if v == 32 {
        "g"
    } else if v == 33 {
        "h"
    } else if v == 34 {
        "i"
    } else if v == 35 {
        "j"
    } else if v == 36 {
        "k"
    } else if v == 37 {
        "l"
    } else if v == 38 {
        "m"
    } else if v == 39 {
        "n"
    } else if v == 40 {
        "o"
    } else if v == 41 {
        "p"
    } else if v == 42 {
        "q"
    } else if v == 43 {
        "r"
    } else if v == 44 {
        "s"
    } else if v == 45 {
        "t"
    } else if v == 46 {
        "u"
    } else if v == 47 {
        "v"
    } else if v == 48 {
        "w"
    } else if v == 49 {
        "x"
    } else if v == 50 {
        "y"
    } else if v == 51 {
        "z"
    } else if v == 52 {
        "0"
    } else if v == 53 {
        "1"
    } else if v == 54 {
        "2"
    } else if v == 55 {
        "3"
    } else if v == 56 {
        "4"
    } else if v == 57 {
        "5"
    } else if v == 58 {
        "6"
    } else if v == 59 {
        "7"
    } else if v == 60 {
        "8"
    } else if v == 61 {
        "9"
    } else if v == 62 {
        "+"
    } else {
        "/"
    };
    proof {
        assert(r@ =~= seq![b64_char(v as int)]);
    }
    r
}

/// The base64 text for `data`: each three-byte group becomes four
/// alphabet characters; a trailing group of one or two bytes is padded
/// with `=` to a four-character block.
pub open spec fn b64_encode_spec(data: Seq<u8>) -> Seq<char>
    decreases data.len(),
{
    if data.len() == 0 {
        Seq::<char>::empty()
    } else if data.len() == 1 {
        let b0 = data[0] as int;
        seq![b64_char(b0 / 4), b64_char((b0 % 4) * 16), '=', '=']
    } else if data.len() == 2 {
        let b0 = data[0] as int;
        let b1 = data[1] as int;
        seq![b64_char(b0 / 4), b64_char((b0 % 4) * 16 + b1 / 16), b64_char((b1 % 16) * 4), '=']
    } else {
        let b0 = data[0] as int;
        let b1 = data[1] as int;
        let b2 = data[2] as int;
        seq![
            b64_char(b0 / 4),
            b64_char((b0 % 4) * 16 + b1 / 16),
            b64_char((b1 % 16) * 4 + b2 / 64),
            b64_char(b2 % 64),
        ] + b64_encode_spec(data.skip(3))
    }
}

/// Encodes a byte sequence as base64 text.
pub fn base64_encode(data: &[u8]) -> (r: String)
    ensures
        r@ == b64_encode_spec(data@),
{
    let mut output = String::new();
    let mut i: usize = 0;
    proof {
        assert(data@.skip(0) =~= data@);
    }
    while data.len() - i >= 3
        invariant
            0 <= i <= data@.len(),
            b64_encode_spec(data@) == output@ + b64_encode_spec(data@.skip(i as int)),
        decreases data@.len() - i,
    {
        let b0 = data[i];
        let b1 = data[i + 1];
        let b2 = data[i + 2];
        output.append(b64_char_str(b0 / 4));
        output.append(b64_char_str((b0 % 4) * 16 + b1 / 16));
        output.append(b64_char_str((b1 % 16) * 4 + b2 / 64));
        output.append(b64_char_str(b2 % 64));
        proof {
            let t = data@.skip(i as int);
            assert(t[0] == data@[i as int] && t[1] == data@[i as int + 1] && t[2] == data@[i as int
                + 2]);
            assert(t.skip(3) =~= data@.skip(i as int + 3));
        }
        i = i + 3;
    }
    if data.len() - i == 1 {
        let b0 = data[i];
        output.append(b64_char_str(b0 / 4));
        output.append(b64_char_str((b0 % 4) * 16));
        output.append("=");
        output.append("=");
        proof {
            reveal_strlit("=");
            let t = data@.skip(i as int);
            assert(t.len() == 1 && t[0] == data@[i as int]);
            assert(output@ =~= b64_encode_spec(data@));
        }
    } else if data.len() - i == 2 {
        let b0 = data[i];
        let b1 = data[i + 1];
        output.append(b64_char_str(b0 / 4));
        output.append(b64_char_str((b0 % 4) * 16 + b1 / 16));
        output.append(b64_char_str((b1 % 16) * 4));
        output.append("=");
        proof {
            reveal_strlit("=");
            let t = data@.skip(i as int);
            assert(t.len() == 2 && t[0] == data@[i as int] && t[1] == data@[i as int + 1]);
            assert(output@ =~= b64_encode_spec(data@));
        }
    } else {
        proof {
            assert(data@.skip(i as int) =~= Seq::<u8>::empty());
            assert(output@ =~= b64_encode_spec(data@));
        }
    }
    output
}

/// Whether `c` is a character of the base64 alphabet.
pub open spec fn is_b64_char(c: char) -> bool {
    let u = c as u32;
    (65 <= u && u <= 90) || (97 <= u && u <= 122) || (48 <= u && u <= 57) || u == 43 || u == 47
}

/// The six-bit value an alphabet character stands for.
pub open spec fn b64_value(c: char) -> int {
    let u = c as u32 as int;
    if 65 <= u && u <= 90 {
        u - 65
    } else if 97 <= u && u <= 122 {
        u - 97 + 26
    } else if 48 <= u && u <= 57 {
        u - 48 + 52
    } else if u == 43 {
        62
    } else {
        63
    }
}

/// The bytes decoded from `cs` with `buf` carrying `bl` bits not yet
/// emitted: each character contributes six bits, and a byte is emitted
/// whenever eight or more bits are pending.
pub open spec fn b64_decode_acc(cs: Seq<char>, buf: int, bl: int) -> Seq<u8>
    decreases cs.len(),
{
    if cs.len() == 0 {
        Seq::<u8>::empty()
    } else {
        let acc = buf * 64 + b64_value(cs[0]);
        let bl2 = bl + 6;
        if bl2 >= 8 {
            let div = if bl2 == 12 {
                16int
            } else if bl2 == 10 {
                4int
            } else {
                1int
            };
            seq![(acc / div) as u8] + b64_decode_acc(cs.drop_first(), acc % div, bl2 - 8)
        } else {
            b64_decode_acc(cs.drop_first(), acc, bl2)
        }
    }
}

/// The carried bits left after decoding `cs` starting from `buf` and `bl`.
pub open spec fn b64_decode_buf(cs: Seq<char>, buf: int, bl: int) -> int
    decreases cs.len(),
{
    if cs.len() == 0 {
        buf
    } else {
        let acc = buf * 64 + b64_value(cs[0]);
        let bl2 = bl + 6;
        if bl2 >= 8 {
            let div = if bl2 == 12 {
                16int
            } else if bl2 == 10 {
                4int
            } else {
                1int
            };
            b64_decode_buf(cs.drop_first(), acc % div, bl2 - 8)
        } else {
            b64_decode_buf(cs.drop_first(), acc, bl2)
        }
    }
}

/// How many bits are still pending after decoding `cs` starting with `bl`
/// pending bits.
pub open spec fn b64_decode_bl(cs: Seq<char>, bl: int) -> int
    decreases cs.len(),
{
    if cs.len() == 0 {
        bl
    } else if bl + 6 >= 8 {
        b64_decode_bl(cs.drop_first(), bl - 2)
    } else {
        b64_decode_bl(cs.drop_first(), bl + 6)
    }
}

proof fn lemma_decode_snoc(cs: Seq<char>, c: char, buf: int, bl: int)
    ensures
        ({
            let rbuf = b64_decode_buf(cs, buf, bl);
            let rbl = b64_decode_bl(cs, bl);
            let acc = rbuf * 64 + b64_value(c);
            let bl2 = rbl + 6;
            let div = if bl2 == 12 {
                16int
            } else if bl2 == 10 {
                4int
            } else {
                1int
            };
            &&& (bl2 >= 8 ==> b64_decode_acc(cs.push(c), buf, bl) == b64_decode_acc(cs, buf, bl)
                + seq![(acc / div) as u8] && b64_decode_buf(cs.push(c), buf, bl) == acc % div
                && b64_decode_bl(cs.push(c), bl) == bl2 - 8)
            &&& (bl2 < 8 ==> b64_decode_acc(cs.push(c), buf, bl) == b64_decode_acc(cs, buf, bl)
                && b64_decode_buf(cs.push(c), buf, bl) == acc && b64_decode_bl(cs.push(c), bl)
                == bl2)
        }),
    decreases cs.len(),
{
    let rbuf = b64_decode_buf(cs, buf, bl);
    let rbl = b64_decode_bl(cs, bl);
    let acc = rbuf * 64 + b64_value(c);
    let bl2 = rbl + 6;
    let div = if bl2 == 12 {
        16int
    } else if bl2 == 10 {
        4int
    } else {
        1int
    };
    if cs.len() == 0 {
        assert(cs.push(c)[0] == c);
        assert(cs.push(c).drop_first() =~= Seq::<char>::empty());
        assert(b64_decode_buf(cs, buf, bl) == buf);
        assert(b64_decode_bl(cs, bl) == bl);
        assert(b64_decode_acc(Seq::<char>::empty(), acc % div, bl2 - 8) =~= Seq::<u8>::empty());
        assert(b64_decode_acc(Seq::<char>::empty(), acc, bl2) =~= Seq::<u8>::empty());
        assert(b64_decode_buf(Seq::<char>::empty(), acc % div, bl2 - 8) == acc % div);
        assert(b64_decode_buf(Seq::<char>::empty(), acc, bl2) == acc);
        assert(b64_decode_bl(Seq::<char>::empty(), bl2 - 8) == bl2 - 8);
        assert(b64_decode_bl(Seq::<char>::empty(), bl2) == bl2);
        if bl2 >= 8 {
            assert(b64_decode_acc(Seq::<char>::empty(), acc % div, bl2 - 8) =~= Seq::<u8>::empty());
            assert(b64_decode_acc(cs.push(c), buf, bl) =~= b64_decode_acc(cs, buf, bl) + seq![
                (acc / div) as u8,
            ]);
        } else {
            assert(b64_decode_acc(cs.push(c), buf, bl) =~= b64_decode_acc(cs, buf, bl));
        }
    } else {
        assert(cs.push(c)[0] == cs[0]);
        assert(cs.push(c).drop_first() =~= cs.drop_first().push(c));
        let acc0 = buf * 64 + b64_value(cs[0]);
        let bl20 = bl + 6;
        if bl20 >= 8 {
            let div0 = if bl20 == 12 {
                16int
            } else if bl20 == 10 {
                4int
            } else {
                1int
            };
            lemma_decode_snoc(cs.drop_first(), c, acc0 % div0, bl20 - 8);
        } else {
            lemma_decode_snoc(cs.drop_first(), c, acc0, bl20);
        }
        if bl2 >= 8 {
            assert(b64_decode_acc(cs.push(c), buf, bl) =~= b64_decode_acc(cs, buf, bl) + seq![
                (acc / div) as u8,
            ]);
        } else {
            assert(b64_decode_acc(cs.push(c), buf, bl) =~= b64_decode_acc(cs, buf, bl));
        }
    }
}

/// `s` with its trailing padding characters removed.
pub open spec fn trim_pad_end_spec(s: Seq<char>) -> Seq<char>
    decreases s.len(),
{
    if s.len() > 0 && s.last() == '=' {
        trim_pad_end_spec(s.drop_last())
    } else {
        s
    }
}

/// The region of base64 text a decoder reads: the input with trailing
/// padding removed, cut at the first embedded padding character.
pub open spec fn b64_effective(s: Seq<char>) -> Seq<char> {
    let t = trim_pad_end_spec(s);
    match crate::text::split_first_spec(t, '=') {
        Some(pair) => pair.0,
        None => t,
    }
}

/// Whether every character of `cs` belongs to the base64 alphabet.
pub open spec fn b64_text_valid(cs: Seq<char>) -> bool {
    forall|i: int| 0 <= i < cs.len() ==> is_b64_char(#[trigger] cs[i])
}

/// The six-bit value of `c`, or nothing when `c` is outside the alphabet.
fn b64_value_of(c: char) -> (r: Option<u8>)
    ensures
        match r {
            Some(v) => is_b64_char(c) && v as int == b64_value(c) && v < 64,
            None => !is_b64_char(c),
        },
{
    let u = c as u32;
    if 65 <= u && u <= 90 {
        Some((u - 65) as u8)
    } else if 97 <= u && u <= 122 {
        Some((u - 97 + 26) as u8)
    } else if 48 <= u && u <= 57 {
        Some((u - 48 + 52) as u8)
    } else if u == 43 {
        Some(62)
    } else if u == 47 {
        Some(63)
    } else {
        None
    }
}

/// Decodes base64 text: trailing padding is ignored, reading stops at an
/// embedded padding character, and any other character outside the
/// alphabet is an error.
#[verifier::loop_isolation(false)]
pub fn base64_decode(input: &str) -> (r: Result<Vec<u8>, &'static str>)
    ensures
        r is Ok <==> b64_text_valid(b64_effective(input@)),
        r matches Ok(v) ==> v@ == b64_decode_acc(b64_effective(input@), 0, 0),
        r matches Err(m) ==> m@ == "Invalid base64 character"@,
{
    let n = input.unicode_len();
    let mut end: usize = n;
    proof {
        assert(input@.subrange(0, n as int) =~= input@);
    }
    while end > 0 && input.get_char(end - 1) == '='
        invariant
            0 <= end <= n == input@.len(),
            trim_pad_end_spec(input@) == trim_pad_end_spec(input@.subrange(0, end as int)),
        decreases end,
    {
        proof {
            let t = input@.subrange(0, end as int);
            assert(t.drop_last() =~= input@.subrange(0, end - 1));
        }
        end = end - 1;
    }
    let ghost trimmed = input@.subrange(0, end as int);
    proof {
        assert(trim_pad_end_spec(trimmed) == trimmed);
        assert(trim_pad_end_spec(input@) == trimmed);
    }
    let mut output: Vec<u8> = Vec::new();
    let mut buf: u32 = 0;
    let mut bl: u32 = 0;
    let mut i: usize = 0;
    while i < end
        invariant
            0 <= i <= end <= n == input@.len(),
            trimmed == input@.subrange(0, end as int),
            forall|k: int| 0 <= k < i ==> is_b64_char(#[trigger] input@[k]) && input@[k] != '=',
            output@ == b64_decode_acc(input@.subrange(0, i as int), 0, 0),
            buf as int == b64_decode_buf(input@.subrange(0, i as int), 0, 0),
            bl as int == b64_decode_bl(input@.subrange(0, i as int), 0),
            bl == 0 || bl == 2 || bl == 4 || bl == 6,
            (buf as int) < (if bl == 0 {
                1int
            } else if bl == 2 {
                4int
            } else if bl == 4 {
                16int
            } else {
                64int
            }),
        decreases end - i,
    {
        let c = input.get_char(i);
        let ghost done = input@.subrange(0, i as int);
        proof {
            lemma_decode_snoc(done, c, 0, 0);
            assert(done.push(c) =~= input@.subrange(0, i as int + 1));
        }
        if c == '=' {
            proof {
                lemma_effective_break(input@, trimmed, i as int);
            }
            return Ok(output);
        }
        match b64_value_of(c) {
            None => {
                proof {
                    lemma_effective_invalid(input@, trimmed, i as int);
                }
                return Err("Invalid base64 character");
            },
            Some(v) => {
                let acc: u32 = buf * 64 + v as u32;
                let bl2: u32 = bl + 6;
                if bl2 >= 8 {
                    let div: u32 = if bl2 == 12 {
                        16
                    } else if bl2 == 10 {
                        4
                    } else {
                        1
                    };
                    output.push((acc / div) as u8);
                    buf = acc % div;
                    bl = bl2 - 8;
                } else {
                    buf = acc;
                    bl = bl2;
                }
            },
        }
        i = i + 1;
    }
    proof {
        lemma_effective_end(input@, trimmed);
    }
    Ok(output)
}

/// At an embedded padding character, the effective region is exactly what
/// was read before it.
proof fn lemma_effective_break(s: Seq<char>, trimmed: Seq<char>, i: int)
    requires
        trimmed == trim_pad_end_spec(s),
        exists|e: int| 0 <= e <= s.len() && trimmed == s.subrange(0, e) && i < e,
        0 <= i,
        s[i] == '=',
        forall|k: int| 0 <= k < i ==> is_b64_char(#[trigger] s[k]) && s[k] != '=',
    ensures
        b64_effective(s) == s.subrange(0, i),
        b64_text_valid(s.subrange(0, i)),
{
    let e = choose|e: int| 0 <= e <= s.len() && trimmed == s.subrange(0, e) && i < e;
    assert(trimmed[i] == '=');
    assert(forall|k: int| 0 <= k < i ==> trimmed[k] == s[k]);
    lemma_split_first_found(trimmed, i);
    assert(trimmed.subrange(0, i) =~= s.subrange(0, i));
    assert(b64_text_valid(s.subrange(0, i)));
}

proof fn lemma_split_first_found(t: Seq<char>, i: int)
    requires
        0 <= i < t.len(),
        t[i] == '=',
        forall|k: int| 0 <= k < i ==> t[k] != '=',
    ensures
        crate::text::split_first_spec(t, '=') == Some(
            (t.subrange(0, i), t.subrange(i + 1, t.len() as int)),
        ),
    decreases i,
{
    if i == 0 {
        assert(t.subrange(0, 0) =~= Seq::<char>::empty());
        assert(t.subrange(1, t.len() as int) =~= t.drop_first());
    } else {
        lemma_split_first_found(t.drop_first(), i - 1);
        assert(seq![t[0]] + t.drop_first().subrange(0, i - 1) =~= t.subrange(0, i));
        assert(t.drop_first().subrange(i, t.drop_first().len() as int) =~= t.subrange(
            i + 1,
            t.len() as int,
        ));
    }
}

/// An alphabet-only trimmed region is the whole effective region.
proof fn lemma_effective_end(s: Seq<char>, trimmed: Seq<char>)
    requires
        trimmed == trim_pad_end_spec(s),
        exists|e: int| 0 <= e <= s.len() && trimmed == s.subrange(0, e),
        forall|k: int| 0 <= k < trimmed.len() ==> is_b64_char(#[trigger] s[k]) && s[k] != '=',
    ensures
        b64_effective(s) == trimmed,
        b64_text_valid(trimmed),
{
    let e = choose|e: int| 0 <= e <= s.len() && trimmed == s.subrange(0, e);
    assert(forall|k: int| 0 <= k < trimmed.len() ==> trimmed[k] == s[k]);
    lemma_split_first_absent(trimmed);
    assert(b64_text_valid(trimmed));
}

proof fn lemma_split_first_absent(t: Seq<char>)
    requires
        forall|k: int| 0 <= k < t.len() ==> t[k] != '=',
    ensures
        crate::text::split_first_spec(t, '=') is None,
    decreases t.len(),
{
    if t.len() > 0 {
        lemma_split_first_absent(t.drop_first());
    }
}

/// An invalid character inside the trimmed region lies inside the
/// effective region, so the effective region is not valid text.
proof fn lemma_effective_invalid(s: Seq<char>, trimmed: Seq<char>, i: int)
    requires
        trimmed == trim_pad_end_spec(s),
        exists|e: int| 0 <= e <= s.len() && trimmed == s.subrange(0, e) && i < e,
        0 <= i,
        !is_b64_char(s[i]),
        s[i] != '=',
        forall|k: int| 0 <= k < i ==> is_b64_char(#[trigger] s[k]) && s[k] != '=',
    ensures
        !b64_text_valid(b64_effective(s)),
{
    let e = choose|e: int| 0 <= e <= s.len() && trimmed == s.subrange(0, e) && i < e;
    assert(forall|k: int| 0 <= k <= i ==> trimmed[k] == s[k]);
    match crate::text::split_first_spec(trimmed, '=') {
        Some(pair) => {
            lemma_split_first_some(trimmed, '=');
            let p = pair.0.len() as int;
            assert(trimmed[p] == '=');
            assert(p > i);
            assert(b64_effective(s)[i] == trimmed[i]);
            assert(!is_b64_char(b64_effective(s)[i]));
        },
        None => {
            assert(b64_effective(s) == trimmed);
            assert(!is_b64_char(b64_effective(s)[i]));
        },
    }
}

/// What a successful split at the first padding character looks like: the
/// prefix really is the padding-free prefix of the input.
proof fn lemma_split_first_some(t: Seq<char>, sep: char)
    requires
        crate::text::split_first_spec(t, sep) is Some,
    ensures
        ({
            let pair = crate::text::split_first_spec(t, sep)->Some_0;
            let p = pair.0.len() as int;
            &&& p < t.len()
            &&& t[p] == sep
            &&& (forall|k: int| 0 <= k < p ==> t[k] != sep)
            &&& pair.0 == t.subrange(0, p)
        }),
    decreases t.len(),
{
    if t[0] == sep {
        assert(t.subrange(0, 0) =~= Seq::<char>::empty());
    } else {
        lemma_split_first_some(t.drop_first(), sep);
        let pr = crate::text::split_first_spec(t.drop_first(), sep)->Some_0;
        let p = pr.0.len() as int;
        assert(pr.0 == t.drop_first().subrange(0, p));
        assert(seq![t[0]] + t.drop_first().subrange(0, p) =~= t.subrange(0, p + 1));
        assert forall|k: int| 0 <= k < p + 1 implies t[k] != sep by {
            if k > 0 {
                assert(t.drop_first()[k - 1] != sep);
            }
        }
    }
}

} // verus!

//! The compact JSON framing the client speaks on the wire: enough of the
//! format to write the fixed request object and to read the fixed response
//! object. Strings are escaped on the way out and unescaped on the way in;
//! a writer/reader round trip is proved in [`crate::access_token`].

use vstd::prelude::*;

verus! {

// ---------------------------------------------------------------------------
// Writing: how a value is framed as JSON text.
// ---------------------------------------------------------------------------

/// How one character is written inside a JSON string: a quote or a
/// backslash gets a backslash in front, every other character stands as
/// it is.
pub open spec fn escaped_char(c: char) -> Seq<char> {
    if c == '"' {
        seq!['\\', '"']
    } else if c == '\\' {
        seq!['\\', '\\']
    } else {
        seq![c]
    }
}

/// A whole string escaped character by character.
pub open spec fn escaped(s: Seq<char>) -> Seq<char>
    decreases s.len(),
{
    if s.len() == 0 {
        Seq::<char>::empty()
    } else {
        escaped_char(s[0]) + escaped(s.drop_first())
    }
}

/// A JSON string: the escaped content between two quotes.
pub open spec fn quoted(s: Seq<char>) -> Seq<char> {
    seq!['"'] + escaped(s) + seq!['"']
}

/// A JSON boolean.
pub open spec fn bool_text(b: bool) -> Seq<char> {
    if b {
        "true"@
    } else {
        "false"@
    }
}

/// Escaping distributes over concatenation.
pub proof fn lemma_escaped_append(a: Seq<char>, b: Seq<char>)
    ensures
        escaped(a + b) == escaped(a) + escaped(b),
    decreases a.len(),
{
    if a.len() == 0 {
        assert(a + b =~= b);
        assert(escaped(a) + escaped(b) =~= escaped(b));
    } else {
        assert((a + b).drop_first() =~= a.drop_first() + b);
        lemma_escaped_append(a.drop_first(), b);
        assert(escaped(a + b) =~= escaped(a) + escaped(b));
    }
}

// ---------------------------------------------------------------------------
// Reading: how JSON text is taken apart again. Each parser consumes a
// prefix and returns the value read together with the remaining text, or
// nothing where the text does not start with the expected form.
// ---------------------------------------------------------------------------

/// What an escape character stands for: the short escapes of JSON.
/// Anything else after a backslash is rejected.
pub open spec fn unescaped_char(c: char) -> Option<char> {
    if c == '"' {
        Some('"')
    } else if c == '\\' {
        Some('\\')
    } else if c == '/' {
        Some('/')
    } else if c == 'n' {
        Some('\n')
    } else if c == 't' {
        Some('\t')
    } else if c == 'r' {
        Some('\r')
    } else if c == 'b' {
        Some('\u{8}')
    } else if c == 'f' {
        Some('\u{c}')
    } else {
        None
    }
}

/// Read the content of a JSON string up to and over its closing quote:
/// a backslash starts a short escape, every other character stands for
/// itself.
pub open spec fn parse_string_body(s: Seq<char>) -> Option<(Seq<char>, Seq<char>)>
    decreases s.len(),
{
    if s.len() == 0 {
        None
    } else if s[0] == '"' {
        Some((Seq::<char>::empty(), s.drop_first()))
    } else if s[0] == '\\' {
        if s.len() < 2 {
            None
        } else {
            match unescaped_char(s[1]) {
                Some(c) => match parse_string_body(s.skip(2)) {
                    Some(p) => Some((seq![c] + p.0, p.1)),
                    None => None,
                },
                None => None,
            }
        }
    } else {
        match parse_string_body(s.drop_first()) {
            Some(p) => Some((seq![s[0]] + p.0, p.1)),
            None => None,
        }
    }
}

/// Read a whole JSON string, opening quote included.
pub open spec fn parse_quoted(s: Seq<char>) -> Option<(Seq<char>, Seq<char>)> {
    if s.len() > 0 && s[0] == '"' {
        parse_string_body(s.drop_first())
    } else {
        None
    }
}

/// Read an expected literal piece of text and return what follows it.
pub open spec fn parse_literal(s: Seq<char>, lit: Seq<char>) -> Option<Seq<char>> {
    if lit.is_prefix_of(s) {
        Some(s.skip(lit.len() as int))
    } else {
        None
    }
}

/// Read a JSON boolean.
pub open spec fn parse_bool(s: Seq<char>) -> Option<(bool, Seq<char>)> {
    if "true"@.is_prefix_of(s) {
        Some((true, s.skip(4)))
    } else if "false"@.is_prefix_of(s) {
        Some((false, s.skip(5)))
    } else {
        None
    }
}

/// A decimal digit.
pub open spec fn is_digit(c: char) -> bool {
    '0' <= c && c <= '9'
}

/// The value of a decimal digit.
pub open spec fn digit_value(c: char) -> int {
    c as int - '0' as int
}

/// Accumulate the value of a run of decimal digits; stops at the first
/// character that is no digit.
pub open spec fn parse_number_rec(s: Seq<char>, acc: int) -> (int, Seq<char>)
    decreases s.len(),
{
    if s.len() == 0 || !is_digit(s[0]) {
        (acc, s)
    } else {
        parse_number_rec(s.drop_first(), acc * 10 + digit_value(s[0]))
    }
}

/// Read a non-negative decimal number of at least one digit. A value
/// beyond what this machine's `usize` can hold is rejected.
pub open spec fn parse_number(s: Seq<char>) -> Option<(int, Seq<char>)> {
    if s.len() > 0 && is_digit(s[0]) {
        let p = parse_number_rec(s, 0);
        if p.0 <= usize::MAX as int {
            Some(p)
        } else {
            None
        }
    } else {
        None
    }
}

/// The digits still to come never lower the accumulated value.
pub proof fn lemma_parse_number_rec_lower_bound(s: Seq<char>, acc: int)
    requires
        acc >= 0,
    ensures
        parse_number_rec(s, acc).0 >= acc,
    decreases s.len(),
{
    if s.len() == 0 || !is_digit(s[0]) {
    } else {
        lemma_parse_number_rec_lower_bound(s.drop_first(), acc * 10 + digit_value(s[0]));
    }
}

// ---------------------------------------------------------------------------
// Round-trip facts: reading back what was written yields the value that
// was written, whatever text follows it.
// ---------------------------------------------------------------------------

/// A literal piece of text reads back as itself.
pub proof fn lemma_parse_literal_of_written(lit: Seq<char>, rest: Seq<char>)
    ensures
        parse_literal(lit + rest, lit) == Some(rest),
{
    assert((lit + rest).take(lit.len() as int) =~= lit);
    assert(lit.is_prefix_of(lit + rest));
    assert((lit + rest).skip(lit.len() as int) =~= rest);
}

/// The content of a written string reads back as itself, and reading
/// stops exactly at the closing quote.
pub proof fn lemma_parse_string_body_of_escaped(s: Seq<char>, rest: Seq<char>)
    ensures
        parse_string_body(escaped(s) + seq!['"'] + rest) == Some((s, rest)),
    decreases s.len(),
{
    let whole = escaped(s) + seq!['"'] + rest;
    if s.len() == 0 {
        assert(whole =~= seq!['"'] + rest);
        assert(whole[0] == '"');
        assert(whole.drop_first() =~= rest);
    } else {
        let c = s[0];
        let tail = s.drop_first();
        lemma_parse_string_body_of_escaped(tail, rest);
        let inner = escaped(tail) + seq!['"'] + rest;
        if c == '"' {
            assert(whole =~= seq!['\\', '"'] + inner);
            assert(whole[0] == '\\' && whole[1] == '"');
            assert(whole.skip(2) =~= inner);
            assert(parse_string_body(inner) == Some((tail, rest)));
            assert(seq![c] + tail =~= s);
        } else if c == '\\' {
            assert(whole =~= seq!['\\', '\\'] + inner);
            assert(whole[0] == '\\' && whole[1] == '\\');
            assert(whole.skip(2) =~= inner);
            assert(seq![c] + tail =~= s);
        } else {
            assert(whole =~= seq![c] + inner);
            assert(whole[0] == c);
            assert(whole.drop_first() =~= inner);
            assert(seq![c] + tail =~= s);
        }
    }
}

/// A written string, quotes and all, reads back as itself.
pub proof fn lemma_parse_quoted_of_written(s: Seq<char>, rest: Seq<char>)
    ensures
        parse_quoted(quoted(s) + rest) == Some((s, rest)),
{
    let whole = quoted(s) + rest;
    assert(whole =~= seq!['"'] + (escaped(s) + seq!['"'] + rest));
    assert(whole[0] == '"');
    assert(whole.drop_first() =~= escaped(s) + seq!['"'] + rest);
    lemma_parse_string_body_of_escaped(s, rest);
}

/// A single character escapes to exactly its escape form.
pub proof fn lemma_escaped_one(c: char)
    ensures
        escaped(seq![c]) == escaped_char(c),
{
    assert(seq![c].len() == 1);
    assert(seq![c][0] == c);
    assert(seq![c].drop_first() =~= Seq::<char>::empty());
    assert(escaped(seq![c]) == escaped_char(c) + escaped(Seq::<char>::empty()));
    assert(escaped_char(c) + Seq::<char>::empty() =~= escaped_char(c));
}

/// A written boolean reads back as itself.
pub proof fn lemma_parse_bool_of_written(b: bool, rest: Seq<char>)
    ensures
        parse_bool(bool_text(b) + rest) == Some((b, rest)),
{
    reveal_strlit("true");
    reveal_strlit("false");
    if b {
        lemma_parse_literal_of_written("true"@, rest);
        assert(("true"@ + rest).skip(4) =~= rest);
    } else {
        let whole = "false"@ + rest;
        assert(whole[0] == 'f');
        if "true"@.is_prefix_of(whole) {
            assert("true"@ =~= whole.subrange(0, 4));
            assert(whole.subrange(0, 4)[0] == whole[0]);
            assert(whole[0] == 't');
            assert(false);
        }
        lemma_parse_literal_of_written("false"@, rest);
        assert(whole.skip(5) =~= rest);
    }
}

// ---------------------------------------------------------------------------
// Executable writer: append JSON pieces to a growing string.
// ---------------------------------------------------------------------------

/// Append a value as a JSON string: opening quote, escaped content,
/// closing quote.
pub fn append_quoted(out: &mut String, s: &str)
    ensures
        final(out)@ == old(out)@ + quoted(s@),
{
    proof {
        reveal_strlit("\"");
    }
    out.append("\"");
    let n = s.unicode_len();
    let mut i: usize = 0;
    while i < n
        invariant
            n == s@.len(),
            i <= n,
            out@ == old(out)@ + seq!['"'] + escaped(s@.take(i as int)),
        decreases n - i,
    {
        let ghost done = s@.take(i as int);
        let c = s.get_char(i);
        if c == '"' {
            proof {
                reveal_strlit("\\\"");
            }
            out.append("\\\"");
            proof {
                assert("\\\""@ =~= escaped_char(c));
            }
        } else if c == '\\' {
            proof {
                reveal_strlit("\\\\");
            }
            out.append("\\\\");
            proof {
                assert("\\\\"@ =~= escaped_char(c));
            }
        } else {
            let piece = s.substring_char(i, i + 1);
            out.append(piece);
            proof {
                assert(piece@ =~= seq![c]);
                assert(seq![c] =~= escaped_char(c));
            }
        }
        proof {
            assert(s@.take(i + 1 as int) =~= done + seq![c]);
            lemma_escaped_append(done, seq![c]);
            lemma_escaped_one(c);
            assert(out@ =~= old(out)@ + seq!['"'] + escaped(s@.take(i + 1 as int)));
        }
        i = i + 1;
    }
    out.append("\"");
    proof {
        assert(s@.take(n as int) =~= s@);
        assert(out@ =~= old(out)@ + quoted(s@));
    }
}

// ---------------------------------------------------------------------------
// Executable reader: each function reads one piece at a position in the
// text and returns the value together with the position after it, exactly
// as the corresponding reading function over sequences says.
// ---------------------------------------------------------------------------

/// Read an expected literal piece of text at position `i`.
pub fn expect_literal_at(s: &str, i: usize, lit: &str) -> (r: Option<usize>)
    requires
        i <= s@.len(),
    ensures
        match r {
            Some(j) => i <= j <= s@.len() && parse_literal(s@.skip(i as int), lit@) == Some(
                s@.skip(j as int),
            ),
            None => parse_literal(s@.skip(i as int), lit@) is None,
        },
{
    let n = lit.unicode_len();
    let total = s.unicode_len();
    if total - i < n {
        proof {
            assert(s@.skip(i as int).len() < lit@.len());
            assert(!lit@.is_prefix_of(s@.skip(i as int)));
        }
        return None;
    }
    let mut j: usize = 0;
    while j < n
        invariant
            n == lit@.len(),
            total == s@.len(),
            i + n <= total,
            j <= n,
            forall|k: int| 0 <= k < j ==> s@[i + k] == lit@[k],
        decreases n - j,
    {
        let sc = s.get_char(i + j);
        let lc = lit.get_char(j);
        if sc != lc {
            proof {
                if lit@.is_prefix_of(s@.skip(i as int)) {
                    assert(lit@ =~= s@.skip(i as int).subrange(0, n as int));
                    assert(lit@[j as int] == s@.skip(i as int)[j as int]);
                    assert(s@.skip(i as int)[j as int] == s@[i + j]);
                    assert(false);
                }
            }
            return None;
        }
        j = j + 1;
    }
    proof {
        assert(lit@ =~= s@.skip(i as int).subrange(0, n as int));
        assert(lit@.is_prefix_of(s@.skip(i as int)));
        assert(s@.skip(i as int).skip(n as int) =~= s@.skip((i + n) as int));
    }
    Some(i + n)
}

/// What a reading function returns once some already-read content is put
/// in front of it.
pub open spec fn prepend_content(pre: Seq<char>, p: Option<(Seq<char>, Seq<char>)>) -> Option<
    (Seq<char>, Seq<char>),
> {
    match p {
        Some(q) => Some((pre + q.0, q.1)),
        None => None,
    }
}

/// Read a whole JSON string at position `i`, returning its unescaped
/// content and the position after the closing quote.
pub fn parse_quoted_at(s: &str, i: usize) -> (r: Option<(String, usize)>)
    requires
        i <= s@.len(),
    ensures
        match r {
            Some(p) => p.1 <= s@.len() && parse_quoted(s@.skip(i as int)) == Some(
                (p.0@, s@.skip(p.1 as int)),
            ),
            None => parse_quoted(s@.skip(i as int)) is None,
        },
{
    let total = s.unicode_len();
    if i >= total || s.get_char(i) != '"' {
        return None;
    }
    proof {
        assert(s@.skip(i as int)[0] == s@[i as int]);
        assert(s@.skip(i as int).drop_first() =~= s@.skip(i + 1 as int));
    }
    let mut out = String::new();
    let mut j: usize = i + 1;
    while j < total
        invariant
            total == s@.len(),
            i < total,
            s@[i as int] == '"',
            i + 1 <= j <= total,
            parse_string_body(s@.skip(i + 1 as int)) == prepend_content(
                out@,
                parse_string_body(s@.skip(j as int)),
            ),
        decreases total - j,
    {
        proof {
            assert(s@.skip(i as int).len() > 0);
            assert(s@.skip(i as int)[0] == s@[i as int]);
            assert(s@.skip(i as int).drop_first() =~= s@.skip(i + 1 as int));
            assert(parse_quoted(s@.skip(i as int)) == parse_string_body(s@.skip(i + 1 as int)));
        }
        let ghost here = s@.skip(j as int);
        proof {
            assert(here[0] == s@[j as int]);
            assert(here.drop_first() =~= s@.skip(j + 1 as int));
        }
        let c = s.get_char(j);
        if c == '"' {
            proof {
                assert(parse_string_body(here) == Some(
                    (Seq::<char>::empty(), s@.skip(j + 1 as int)),
                ));
                assert(out@ + Seq::<char>::empty() =~= out@);
            }
            return Some((out, j + 1));
        } else if c == '\\' {
            if j + 1 >= total {
                proof {
                    assert(here.len() < 2);
                    assert(parse_string_body(here) is None);
                }
                return None;
            }
            proof {
                assert(here[1] == s@[j + 1 as int]);
                assert(here.skip(2) =~= s@.skip(j + 2 as int));
            }
            let e = s.get_char(j + 1);
            let ghost before = out@;
            if e == '"' {
                proof {
                    reveal_strlit("\"");
                }
                out.append("\"");
                proof {
                    assert(out@ =~= before + seq!['"']);
                }
            } else if e == '\\' {
                proof {
                    reveal_strlit("\\");
                }
                out.append("\\");
                proof {
                    assert(out@ =~= before + seq!['\\']);
                }
            } else if e == '/' {
                proof {
                    reveal_strlit("/");
                }
                out.append("/");
                proof {
                    assert(out@ =~= before + seq!['/']);
                }
            } else if e == 'n' {
                proof {
                    reveal_strlit("\n");
                }
                out.append("\n");
                proof {
                    assert(out@ =~= before + seq!['\n']);
                }
            } else if e == 't' {
                proof {
                    reveal_strlit("\t");
                }
                out.append("\t");
                proof {
                    assert(out@ =~= before + seq!['\t']);
                }
            } else if e == 'r' {
                proof {
                    reveal_strlit("\r");
                }
                out.append("\r");
                proof {
                    assert(out@ =~= before + seq!['\r']);
                }
            } else if e == 'b' {
                proof {
                    reveal_strlit("\u{8}");
                }
                out.append("\u{8}");
                proof {
                    assert(out@ =~= before + seq!['\u{8}']);
                }
            } else if e == 'f' {
                proof {
                    reveal_strlit("\u{c}");
                }
                out.append("\u{c}");
                proof {
                    assert(out@ =~= before + seq!['\u{c}']);
                }
            } else {
                proof {
                    assert(unescaped_char(e) is None);
                    assert(parse_string_body(here) is None);
                }
                return None;
            }
            proof {
                let d = unescaped_char(e)->0;
                assert(out@ =~= before + seq![d]);
                match parse_string_body(s@.skip(j + 2 as int)) {
                    Some(p) => {
                        assert(parse_string_body(here) == Some((seq![d] + p.0, p.1)));
                        assert(before + (seq![d] + p.0) =~= out@ + p.0);
                    },
                    None => {
                        assert(parse_string_body(here) is None);
                    },
                }
            }
            j = j + 2;
        } else {
            let ghost before = out@;
            let piece = s.substring_char(j, j + 1);
            out.append(piece);
            proof {
                assert(piece@ =~= seq![c]);
                assert(out@ =~= before + seq![c]);
                match parse_string_body(s@.skip(j + 1 as int)) {
                    Some(p) => {
                        assert(parse_string_body(here) == Some((seq![c] + p.0, p.1)));
                        assert(before + (seq![c] + p.0) =~= out@ + p.0);
                    },
                    None => {
                        assert(parse_string_body(here) is None);
                    },
                }
            }
            j = j + 1;
        }
    }
    proof {
        assert(s@.skip(i as int).len() > 0);
        assert(s@.skip(i as int)[0] == s@[i as int]);
        assert(s@.skip(i as int).drop_first() =~= s@.skip(i + 1 as int));
        assert(s@.skip(j as int).len() == 0);
        assert(parse_string_body(s@.skip(j as int)) is None);
    }
    None
}

/// Read a JSON boolean at position `i`.
pub fn parse_bool_at(s: &str, i: usize) -> (r: Option<(bool, usize)>)
    requires
        i <= s@.len(),
    ensures
        match r {
            Some(p) => p.1 <= s@.len() && parse_bool(s@.skip(i as int)) == Some(
                (p.0, s@.skip(p.1 as int)),
            ),
            None => parse_bool(s@.skip(i as int)) is None,
        },
{
    proof {
        reveal_strlit("true");
        reveal_strlit("false");
    }
    match expect_literal_at(s, i, "true") {
        Some(j) => Some((true, j)),
        None => match expect_literal_at(s, i, "false") {
            Some(j) => Some((false, j)),
            None => None,
        },
    }
}

/// Read a decimal number at position `i`. A value beyond `usize` is
/// rejected, exactly as the reading function over sequences says.
pub fn parse_number_at(s: &str, i: usize) -> (r: Option<(usize, usize)>)
    requires
        i <= s@.len(),
    ensures
        match r {
            Some(p) => p.1 <= s@.len() && parse_number(s@.skip(i as int)) == Some(
                (p.0 as int, s@.skip(p.1 as int)),
            ),
            None => parse_number(s@.skip(i as int)) is None,
        },
{
    let total = s.unicode_len();
    if i >= total {
        return None;
    }
    let c0 = s.get_char(i);
    if !(c0 >= '0' && c0 <= '9') {
        proof {
            assert(s@.skip(i as int)[0] == s@[i as int]);
        }
        return None;
    }
    proof {
        assert(s@.skip(i as int)[0] == s@[i as int]);
        assert(is_digit(s@.skip(i as int)[0]));
    }
    let mut acc: usize = 0;
    let mut j: usize = i;
    while j < total
        invariant
            total == s@.len(),
            i < total,
            is_digit(s@[i as int]),
            i <= j <= total,
            parse_number_rec(s@.skip(i as int), 0) == parse_number_rec(
                s@.skip(j as int),
                acc as int,
            ),
        decreases total - j,
    {
        proof {
            assert(s@.skip(i as int).len() > 0);
            assert(s@.skip(i as int)[0] == s@[i as int]);
        }
        let ghost here = s@.skip(j as int);
        proof {
            assert(here[0] == s@[j as int]);
            assert(here.drop_first() =~= s@.skip(j + 1 as int));
        }
        let c = s.get_char(j);
        if !(c >= '0' && c <= '9') {
            proof {
                assert(!is_digit(here[0]));
                assert(parse_number_rec(here, acc as int) == (acc as int, here));
            }
            return Some((acc, j));
        }
        let d: usize = (c as u32 - 48) as usize;
        proof {
            assert(is_digit(here[0]));
            assert(d as int == digit_value(c));
            assert(d <= 9);
        }
        if acc > (usize::MAX - d) / 10 {
            proof {
                let m = usize::MAX as int;
                let q = (m - d as int) / 10;
                assert(m - d as int == 10 * q + (m - d as int) % 10);
                assert(acc as int * 10 + d as int > m) by (nonlinear_arith)
                    requires
                        acc as int >= q + 1,
                        m - d as int == 10 * q + (m - d as int) % 10,
                        0 <= (m - d as int) % 10 < 10,
                ;
                lemma_parse_number_rec_lower_bound(
                    s@.skip(j + 1 as int),
                    acc as int * 10 + d as int,
                );
                assert(parse_number_rec(here, acc as int) == parse_number_rec(
                    s@.skip(j + 1 as int),
                    acc as int * 10 + digit_value(here[0]),
                ));
                assert(parse_number_rec(s@.skip(i as int), 0).0 > m);
            }
            return None;
        }
        proof {
            assert(acc as int * 10 + d as int <= usize::MAX as int) by (nonlinear_arith)
                requires
                    acc as int <= (usize::MAX as int - d as int) / 10,
                    usize::MAX as int - d as int == 10 * ((usize::MAX as int - d as int) / 10) + (
                    usize::MAX as int - d as int) % 10,
                    0 <= (usize::MAX as int - d as int) % 10 < 10,
                    0 <= d as int <= 9,
            ;
            assert(parse_number_rec(here, acc as int) == parse_number_rec(
                s@.skip(j + 1 as int),
                acc as int * 10 + digit_value(here[0]),
            ));
        }
        acc = acc * 10 + d;
        j = j + 1;
    }
    proof {
        assert(s@.skip(i as int).len() > 0);
        assert(s@.skip(i as int)[0] == s@[i as int]);
        assert(s@.skip(j as int).len() == 0);
        assert(parse_number_rec(s@.skip(j as int), acc as int) == (
            acc as int,
            s@.skip(j as int),
        ));
    }
    Some((acc, j))
}

} // verus!

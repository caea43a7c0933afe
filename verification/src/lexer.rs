//! A tolerant lexer for the protocol's JSON texts.
//!
//! The daemon's messages are JSON objects whose members are strings, so a
//! token stream needs only five shapes: the two braces, the colon, the
//! comma, and string literals.  The lexer accepts what the JSON grammar
//! accepts: insignificant whitespace anywhere between tokens, and inside
//! string literals every escape form — the short escapes, `\/`, and
//! `\uXXXX` with either hex case, including surrogate pairs for characters
//! beyond the basic plane.  A string token carries the *denoted* characters,
//! so everything downstream compares values, never spellings.
//!
//! [`lex`] is the specification: a deterministic function from text to an
//! optional token sequence.  [`tokenize`] is the verified executable lexer,
//! a plain loop over the characters, proved to return exactly what [`lex`]
//! says.

use vstd::prelude::*;
use vstd::std_specs::iter::IteratorSpec;
use vstd::utf8::is_scalar;

verus! {

/// One lexical token of a protocol JSON text.
pub enum JsonToken {
    LBrace,
    RBrace,
    Colon,
    Comma,
    /// A string literal, as the characters it denotes (unescaped).
    Text(Seq<char>),
}

/// The executable form of a [`JsonToken`].
pub enum Token {
    LBrace,
    RBrace,
    Colon,
    Comma,
    Text(String),
}

impl View for Token {
    type V = JsonToken;

    open spec fn view(&self) -> JsonToken {
        match self {
            Token::LBrace => JsonToken::LBrace,
            Token::RBrace => JsonToken::RBrace,
            Token::Colon => JsonToken::Colon,
            Token::Comma => JsonToken::Comma,
            Token::Text(s) => JsonToken::Text(s@),
        }
    }
}

/// The views of a token vector, in order.
pub open spec fn tokens_view(ts: Seq<Token>) -> Seq<JsonToken> {
    Seq::new(ts.len(), |i: int| ts[i]@)
}

/// JSON's insignificant whitespace.
pub open spec fn is_json_ws(c: char) -> bool {
    c == ' ' || c == '\t' || c == '\n' || c == '\r'
}

/// The value of one hexadecimal digit, either case, or a negative number.
pub open spec fn hex_nibble(c: char) -> int {
    let u = c as u32;
    if 0x30 <= u && u <= 0x39 {
        u - 0x30
    } else if 0x61 <= u && u <= 0x66 {
        u - 0x61 + 10
    } else if 0x41 <= u && u <= 0x46 {
        u - 0x41 + 10
    } else {
        -1
    }
}

/// The value of the four hex digits at `t[i..i+4]`, or a negative number.
pub open spec fn hex4(t: Seq<char>, i: int) -> int
    recommends
        i + 4 <= t.len(),
{
    if hex_nibble(t[i]) >= 0 && hex_nibble(t[i + 1]) >= 0 && hex_nibble(t[i + 2]) >= 0
        && hex_nibble(t[i + 3]) >= 0 {
        hex_nibble(t[i]) * 0x1000 + hex_nibble(t[i + 1]) * 0x100 + hex_nibble(t[i + 2]) * 0x10
            + hex_nibble(t[i + 3])
    } else {
        -1
    }
}

/// The character denoted by the escape beginning at `t[i]` (a backslash),
/// and how many characters of `t` it spans; `None` when no JSON escape
/// starts there.  A high surrogate must be completed by a low one; a lone
/// surrogate denotes nothing.
pub open spec fn lex_escape(t: Seq<char>, i: int) -> Option<(char, int)> {
    if i + 2 > t.len() {
        None
    } else {
        let d = t[i + 1];
        if d == '"' {
            Some(('"', 2))
        } else if d == '\\' {
            Some(('\\', 2))
        } else if d == '/' {
            Some(('/', 2))
        } else if d == 'b' {
            Some(('\u{08}', 2))
        } else if d == 'f' {
            Some(('\u{0c}', 2))
        } else if d == 'n' {
            Some(('\n', 2))
        } else if d == 'r' {
            Some(('\r', 2))
        } else if d == 't' {
            Some(('\t', 2))
        } else if d == 'u' {
            if i + 6 > t.len() {
                None
            } else {
                let h = hex4(t, i + 2);
                if h < 0 {
                    None
                } else if 0xD800 <= h && h <= 0xDBFF {
                    if i + 12 <= t.len() && t[i + 6] == '\\' && t[i + 7] == 'u' && 0xDC00 <= hex4(
                        t,
                        i + 8,
                    ) && hex4(t, i + 8) <= 0xDFFF {
                        let l = hex4(t, i + 8);
                        Some((((0x10000 + (h - 0xD800) * 0x400 + (l - 0xDC00)) as u32) as char, 12))
                    } else {
                        None
                    }
                } else if 0xDC00 <= h && h <= 0xDFFF {
                    None
                } else {
                    Some(((h as u32) as char, 6))
                }
            }
        } else {
            None
        }
    }
}

/// Every escape spans at least two characters.
pub proof fn lemma_lex_escape_span(t: Seq<char>, i: int)
    ensures
        match lex_escape(t, i) {
            Some((c, k)) => 2 <= k && i + k <= t.len(),
            None => true,
        },
{
}

/// The string body starting at `t[i]` (just past the opening quote): the
/// denoted characters and the position after the closing quote, or `None`
/// when no string literal body starts there.
pub open spec fn lex_string(t: Seq<char>, i: int) -> Option<(Seq<char>, int)>
    decreases t.len() - i,
{
    if i >= t.len() {
        None
    } else if t[i] == '"' {
        Some((Seq::empty(), i + 1))
    } else if t[i] == '\\' {
        match lex_escape(t, i) {
            Some((c, k)) => {
                proof {
                    lemma_lex_escape_span(t, i);
                }
                match lex_string(t, i + k) {
                    Some((v, j)) => Some((seq![c] + v, j)),
                    None => None,
                }
            },
            None => None,
        }
    } else if (t[i] as u32) >= 0x20 {
        match lex_string(t, i + 1) {
            Some((v, j)) => Some((seq![t[i]] + v, j)),
            None => None,
        }
    } else {
        None
    }
}

/// A successful string body always makes progress and stays in bounds.
pub proof fn lemma_lex_string_advances(t: Seq<char>, i: int)
    ensures
        match lex_string(t, i) {
            Some((v, j)) => i < j <= t.len(),
            None => true,
        },
    decreases t.len() - i,
{
    if i >= t.len() {
    } else if t[i] == '"' {
    } else if t[i] == '\\' {
        match lex_escape(t, i) {
            Some((c, k)) => {
                lemma_lex_escape_span(t, i);
                lemma_lex_string_advances(t, i + k);
            },
            None => {},
        }
    } else if (t[i] as u32) >= 0x20 {
        lemma_lex_string_advances(t, i + 1);
    } else {
    }
}

/// Prepends a token to an optional token sequence.
pub open spec fn cons_token(tok: JsonToken, rest: Option<Seq<JsonToken>>) -> Option<
    Seq<JsonToken>,
> {
    match rest {
        Some(r) => Some(seq![tok] + r),
        None => None,
    }
}

/// The tokens of `t` from position `i` on: whitespace is skipped anywhere
/// between tokens; `None` when anything but a token or whitespace appears.
pub open spec fn lex_at(t: Seq<char>, i: int) -> Option<Seq<JsonToken>>
    decreases t.len() - i,
{
    if i >= t.len() {
        Some(Seq::empty())
    } else if is_json_ws(t[i]) {
        lex_at(t, i + 1)
    } else if t[i] == '{' {
        cons_token(JsonToken::LBrace, lex_at(t, i + 1))
    } else if t[i] == '}' {
        cons_token(JsonToken::RBrace, lex_at(t, i + 1))
    } else if t[i] == ':' {
        cons_token(JsonToken::Colon, lex_at(t, i + 1))
    } else if t[i] == ',' {
        cons_token(JsonToken::Comma, lex_at(t, i + 1))
    } else if t[i] == '"' {
        match lex_string(t, i + 1) {
            Some((v, j)) => {
                proof {
                    lemma_lex_string_advances(t, i + 1);
                }
                cons_token(JsonToken::Text(v), lex_at(t, j))
            },
            None => None,
        }
    } else {
        None
    }
}

/// The token sequence of a whole text, or `None` when it is not a sequence
/// of JSON tokens.
pub open spec fn lex(t: Seq<char>) -> Option<Seq<JsonToken>> {
    lex_at(t, 0)
}

// ------------------------------------------------------------------
// Lexing is translation invariant: it reads only the suffix.
// ------------------------------------------------------------------

/// The escape rule reads only the suffix after the split point.
#[verifier::rlimit(50)]
pub proof fn lemma_lex_escape_shift(t: Seq<char>, k: int, i: int)
    requires
        0 <= k <= i,
        k <= t.len(),
    ensures
        lex_escape(t, i) == lex_escape(t.skip(k), i - k),
{
    let u = t.skip(k);
    assert(u.len() == t.len() - k);
    assert(i - k + 2 > u.len() <==> i + 2 > t.len());
    if i + 2 <= t.len() {
        assert(u[i - k + 1] == t[i + 1]);
        assert(i - k + 6 > u.len() <==> i + 6 > t.len());
        if t[i + 1] == 'u' && i + 6 <= t.len() {
            assert(u[i - k + 2] == t[i + 2] && u[i - k + 3] == t[i + 3] && u[i - k + 4] == t[i + 4]
                && u[i - k + 5] == t[i + 5]);
            assert(hex4(u, i - k + 2) == hex4(t, i + 2));
            assert(i - k + 12 <= u.len() <==> i + 12 <= t.len());
            if i + 12 <= t.len() {
                assert(u[i - k + 6] == t[i + 6] && u[i - k + 7] == t[i + 7] && u[i - k + 8] == t[i
                    + 8] && u[i - k + 9] == t[i + 9] && u[i - k + 10] == t[i + 10] && u[i - k + 11]
                    == t[i + 11]);
                assert(hex4(u, i - k + 8) == hex4(t, i + 8));
            }
        }
    }
}

/// The string rule reads only the suffix after the split point.
#[verifier::rlimit(50)]
pub proof fn lemma_lex_string_shift(t: Seq<char>, k: int, i: int)
    requires
        0 <= k <= i,
        k <= t.len(),
    ensures
        lex_string(t, i) == match lex_string(t.skip(k), i - k) {
            Some((v, j)) => Some((v, j + k)),
            None => None::<(Seq<char>, int)>,
        },
    decreases t.len() - i,
{
    let u = t.skip(k);
    assert(u.len() == t.len() - k);
    if i >= t.len() {
        assert(i - k >= u.len());
    } else {
        assert(u[i - k] == t[i]);
        if t[i] == '"' {
        } else if t[i] == '\\' {
            lemma_lex_escape_shift(t, k, i);
            match lex_escape(t, i) {
                Some((c, m)) => {
                    lemma_lex_escape_span(t, i);
                    lemma_lex_string_shift(t, k, i + m);
                },
                None => {},
            }
        } else if (t[i] as u32) >= 0x20 {
            lemma_lex_string_shift(t, k, i + 1);
        } else {
        }
    }
}

/// Token lexing reads only the suffix after the split point.
pub proof fn lemma_lex_at_shift(t: Seq<char>, k: int, i: int)
    requires
        0 <= k <= i,
        k <= t.len(),
    ensures
        lex_at(t, i) == lex_at(t.skip(k), i - k),
    decreases t.len() - i,
{
    let u = t.skip(k);
    assert(u.len() == t.len() - k);
    if i >= t.len() {
    } else {
        assert(u[i - k] == t[i]);
        if is_json_ws(t[i]) {
            lemma_lex_at_shift(t, k, i + 1);
        } else if t[i] == '{' || t[i] == '}' || t[i] == ':' || t[i] == ',' {
            lemma_lex_at_shift(t, k, i + 1);
        } else if t[i] == '"' {
            lemma_lex_string_shift(t, k, i + 1);
            match lex_string(t, i + 1) {
                Some((v, j)) => {
                    lemma_lex_string_advances(t, i + 1);
                    lemma_lex_at_shift(t, k, j);
                },
                None => {},
            }
        } else {
        }
    }
}

// ------------------------------------------------------------------
// The verified lexer
// ------------------------------------------------------------------

/// Relies on `String`'s `FromIterator` implementation: collecting characters
/// yields the string of exactly those characters, in order.
#[verifier::external_body]
fn string_from_chars(v: Vec<char>) -> (r: String)
    ensures
        r@ == v@,
{
    v.into_iter().collect()
}

/// Relies on `char::from_u32`: `Some` exactly on Unicode scalar values,
/// yielding the character with that value.
#[verifier::external_body]
fn char_from_u32(v: u32) -> (r: Option<char>)
    ensures
        match r {
            Some(c) => c as u32 == v,
            None => !is_scalar(v),
        },
{
    char::from_u32(v)
}

/// The characters of a string, as a vector.
fn str_chars_vec(s: &str) -> (v: Vec<char>)
    ensures
        v@ == s@,
{
    broadcast use vstd::string::next_postcondition;

    let mut it = s.chars();
    proof {
        vstd::string::axiom_spec_iter(s);
    }
    let mut v: Vec<char> = Vec::new();
    proof {
        assert(v@ + it.remaining() =~= s@);
    }
    loop
        invariant
            it.obeys_prophetic_iter_laws(),
            it.decrease() is Some,
            v@ + it.remaining() == s@,
        decreases it.decrease()->0,
    {
        match it.next() {
            Some(c) => {
                v.push(c);
                proof {
                    assert(v@ + it.remaining() =~= s@);
                }
            },
            None => {
                proof {
                    assert(v@ =~= s@);
                }
                return v;
            },
        }
    }
}

/// The value of one hexadecimal digit character, either case.
fn hex_nibble_val(c: char) -> (r: Option<u32>)
    ensures
        match r {
            Some(x) => x < 16 && hex_nibble(c) == x,
            None => hex_nibble(c) < 0,
        },
{
    let u = c as u32;
    if 0x30 <= u && u <= 0x39 {
        Some(u - 0x30)
    } else if 0x61 <= u && u <= 0x66 {
        Some(u - 0x61 + 10)
    } else if 0x41 <= u && u <= 0x46 {
        Some(u - 0x41 + 10)
    } else {
        None
    }
}

/// The value of the four hex digits at `cs[i..i+4]`.
fn hex4_val(cs: &Vec<char>, i: usize) -> (r: Option<u32>)
    requires
        i + 4 <= cs@.len(),
    ensures
        match r {
            Some(x) => x <= 0xFFFF && hex4(cs@, i as int) == x,
            None => hex4(cs@, i as int) < 0,
        },
{
    let n = cs.len();
    let n0 = hex_nibble_val(cs[i]);
    let n1 = hex_nibble_val(cs[i + 1]);
    let n2 = hex_nibble_val(cs[i + 2]);
    let n3 = hex_nibble_val(cs[i + 3]);
    match (n0, n1, n2, n3) {
        (Some(a), Some(b), Some(c), Some(d)) => Some(a * 0x1000 + b * 0x100 + c * 0x10 + d),
        _ => None,
    }
}

/// Resolves the escape at `cs[j]` (a backslash) exactly as [`lex_escape`]
/// reads it: the denoted character and the characters it spans.
#[verifier::rlimit(50)]
fn scan_escape(cs: &Vec<char>, j: usize) -> (r: Option<(char, usize)>)
    requires
        j < cs@.len(),
        cs@[j as int] == '\\',
    ensures
        match r {
            Some((c, k)) => lex_escape(cs@, j as int) == Some((c, k as int)) && 2 <= k && j + k
                <= cs@.len(),
            None => lex_escape(cs@, j as int) is None,
        },
{
    let n = cs.len();
    if n - j < 2 {
        return None;
    }
    let d = cs[j + 1];
    if d == '"' {
        Some(('"', 2))
    } else if d == '\\' {
        Some(('\\', 2))
    } else if d == '/' {
        Some(('/', 2))
    } else if d == 'b' {
        Some(('\u{08}', 2))
    } else if d == 'f' {
        Some(('\u{0c}', 2))
    } else if d == 'n' {
        Some(('\n', 2))
    } else if d == 'r' {
        Some(('\r', 2))
    } else if d == 't' {
        Some(('\t', 2))
    } else if d == 'u' {
        if n - j < 6 {
            return None;
        }
        let h = match hex4_val(cs, j + 2) {
            Some(h) => h,
            None => {
                return None;
            },
        };
        if 0xD800 <= h && h <= 0xDBFF {
            // A high surrogate needs its low partner.
            if n - j < 12 {
                return None;
            }
            if cs[j + 6] != '\\' || cs[j + 7] != 'u' {
                return None;
            }
            let l = match hex4_val(cs, j + 8) {
                Some(l) => l,
                None => {
                    return None;
                },
            };
            if !(0xDC00 <= l && l <= 0xDFFF) {
                return None;
            }
            let val = 0x10000 + (h - 0xD800) * 0x400 + (l - 0xDC00);
            proof {
                assert(is_scalar(val));
            }
            let c = match char_from_u32(val) {
                Some(c) => c,
                None => vstd::pervasive::unreached(),
            };
            proof {
                vstd::utf8::char_u32_cast(c, val);
            }
            Some((c, 12))
        } else if 0xDC00 <= h && h <= 0xDFFF {
            None
        } else {
            proof {
                assert(is_scalar(h));
            }
            let c = match char_from_u32(h) {
                Some(c) => c,
                None => vstd::pervasive::unreached(),
            };
            proof {
                vstd::utf8::char_u32_cast(c, h);
            }
            Some((c, 6))
        }
    } else {
        None
    }
}

/// Scans one string body from `start` (just past the opening quote),
/// returning the denoted text and the position after the closing quote.
#[verifier::rlimit(50)]
fn scan_string(cs: &Vec<char>, start: usize) -> (r: Option<(String, usize)>)
    requires
        start <= cs@.len(),
    ensures
        match r {
            Some((v, j)) => lex_string(cs@, start as int) == Some((v@, j as int)) && start < j
                <= cs@.len(),
            None => lex_string(cs@, start as int) is None,
        },
{
    let ghost t = cs@;
    let n = cs.len();
    let mut acc: Vec<char> = Vec::new();
    let mut j: usize = start;
    loop
        invariant
            t == cs@,
            n == t.len(),
            start <= j <= n,
            lex_string(t, start as int) == match lex_string(t, j as int) {
                Some((v, e)) => Some((acc@ + v, e)),
                None => None::<(Seq<char>, int)>,
            },
        decreases n - j,
    {
        if j >= n {
            return None;
        }
        let c = cs[j];
        if c == '"' {
            proof {
                assert(acc@ + Seq::<char>::empty() =~= acc@);
            }
            return Some((string_from_chars(acc), j + 1));
        }
        if c == '\\' {
            let (head, k) = match scan_escape(cs, j) {
                Some(p) => p,
                None => {
                    return None;
                },
            };
            proof {
                assert(lex_string(t, j as int) == match lex_string(t, j + k) {
                    Some((v, e)) => Some((seq![head] + v, e)),
                    None => None::<(Seq<char>, int)>,
                });
            }
            let ghost acc_old = acc@;
            acc.push(head);
            proof {
                match lex_string(t, j + k) {
                    Some((v, e)) => {
                        assert(acc_old + (seq![head] + v) =~= acc@ + v);
                    },
                    None => {},
                }
            }
            j = j + k;
        } else if (c as u32) < 0x20 {
            return None;
        } else {
            proof {
                assert(lex_string(t, j as int) == match lex_string(t, j + 1) {
                    Some((v, e)) => Some((seq![c] + v, e)),
                    None => None::<(Seq<char>, int)>,
                });
            }
            let ghost acc_old = acc@;
            acc.push(c);
            proof {
                match lex_string(t, j + 1) {
                    Some((v, e)) => {
                        assert(acc_old + (seq![c] + v) =~= acc@ + v);
                    },
                    None => {},
                }
            }
            j = j + 1;
        }
    }
}

/// Lexes a whole text into tokens, exactly as [`lex`] specifies.
#[verifier::rlimit(50)]
pub fn tokenize(s: &str) -> (r: Option<Vec<Token>>)
    ensures
        match r {
            Some(ts) => lex(s@) == Some(tokens_view(ts@)),
            None => lex(s@) is None,
        },
{
    let cs = str_chars_vec(s);
    let ghost t = s@;
    let n = cs.len();
    let mut out: Vec<Token> = Vec::new();
    let mut i: usize = 0;
    loop
        invariant
            t == s@,
            t == cs@,
            n == t.len(),
            i <= n,
            lex(t) == match lex_at(t, i as int) {
                Some(rest) => Some(tokens_view(out@) + rest),
                None => None::<Seq<JsonToken>>,
            },
        decreases n - i,
    {
        if i >= n {
            proof {
                assert(tokens_view(out@) + Seq::<JsonToken>::empty() =~= tokens_view(out@));
            }
            return Some(out);
        }
        let c = cs[i];
        if c == ' ' || c == '\t' || c == '\n' || c == '\r' {
            i = i + 1;
        } else if c == '{' || c == '}' || c == ':' || c == ',' {
            let tok = if c == '{' {
                Token::LBrace
            } else if c == '}' {
                Token::RBrace
            } else if c == ':' {
                Token::Colon
            } else {
                Token::Comma
            };
            let ghost tv = tok@;
            let ghost out_old = out@;
            out.push(tok);
            proof {
                assert(tokens_view(out@) =~= tokens_view(out_old) + seq![tv]);
                match lex_at(t, i + 1) {
                    Some(rest) => {
                        assert(tokens_view(out_old) + (seq![tv] + rest) =~= tokens_view(out@)
                            + rest);
                    },
                    None => {},
                }
            }
            i = i + 1;
        } else if c == '"' {
            match scan_string(&cs, i + 1) {
                Some((text, j)) => {
                    let ghost tv = JsonToken::Text(text@);
                    let ghost out_old = out@;
                    out.push(Token::Text(text));
                    proof {
                        assert(tokens_view(out@) =~= tokens_view(out_old) + seq![tv]);
                        match lex_at(t, j as int) {
                            Some(rest) => {
                                assert(tokens_view(out_old) + (seq![tv] + rest) =~= tokens_view(
                                    out@,
                                ) + rest);
                            },
                            None => {},
                        }
                    }
                    i = j;
                },
                None => {
                    return None;
                },
            }
        } else {
            return None;
        }
    }
}

} // verus!

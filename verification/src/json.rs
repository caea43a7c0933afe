//! The JSON text of the protocol messages: a canonical printer and a
//! tolerant parser.
//!
//! Printing: every message has one canonical rendering — a compact JSON
//! object whose `type` member names the variant in `snake_case`, remaining
//! members in declaration order, `"` and `\` escaped with a backslash,
//! backspace, tab, line feed, form feed and carriage return as their short
//! escapes, every other control character below U+0020 as `\u00XX` with
//! lowercase hex digits, and all remaining characters standing for
//! themselves.  This matches what the daemon itself emits, byte for byte.
//!
//! Parsing accepts everything the JSON grammar allows for these shapes, not
//! just the canonical rendering: whitespace between tokens, members in any
//! order, and any escape spelling (resolved by [`crate::lexer`]).
//! [`denotes_response`] states which texts mean which response;
//! [`lemma_denotes_unique`] shows a text denotes at most one, and
//! [`lemma_canonical_denotes`] shows the canonical text denotes its own
//! message — together the round trip.

use vstd::prelude::*;
use vstd::string::StringSliceAdditionalSpecFns;
use vstd::string::StrSliceExecFns;
use vstd::utf8::char_is_scalar;
use vstd::utf8::encode_scalar;
use vstd::utf8::encode_utf8;
use crate::lexer::cons_token;
use crate::lexer::hex4;
use crate::lexer::hex_nibble;
use crate::lexer::lemma_lex_at_shift;
use crate::lexer::lex;
use crate::lexer::lex_at;
use crate::lexer::lex_escape;
use crate::lexer::lex_string;
use crate::lexer::tokenize;
use crate::lexer::tokens_view;
use crate::lexer::JsonToken;
use crate::lexer::Token;
use crate::protocol::AuthMessageType;
use crate::protocol::ErrorType;
use crate::protocol::Request;
use crate::protocol::RequestView;
use crate::protocol::Response;
use crate::protocol::ResponseView;

verus! {

// ------------------------------------------------------------------
// The text specification
// ------------------------------------------------------------------

/// The lowercase hexadecimal digit for `n`.
pub open spec fn hex_digit(n: int) -> char {
    if n == 0 { '0' } else if n == 1 { '1' } else if n == 2 { '2' } else if n == 3 { '3' }
    else if n == 4 { '4' } else if n == 5 { '5' } else if n == 6 { '6' } else if n == 7 { '7' }
    else if n == 8 { '8' } else if n == 9 { '9' } else if n == 10 { 'a' } else if n == 11 { 'b' }
    else if n == 12 { 'c' } else if n == 13 { 'd' } else if n == 14 { 'e' } else { 'f' }
}

/// The canonical JSON escape of one character.
pub open spec fn escape_char(c: char) -> Seq<char> {
    if c == '"' {
        seq!['\\', '"']
    } else if c == '\\' {
        seq!['\\', '\\']
    } else if c == '\u{08}' {
        seq!['\\', 'b']
    } else if c == '\t' {
        seq!['\\', 't']
    } else if c == '\n' {
        seq!['\\', 'n']
    } else if c == '\u{0c}' {
        seq!['\\', 'f']
    } else if c == '\r' {
        seq!['\\', 'r']
    } else if (c as u32) < 0x20 {
        seq![
            '\\',
            'u',
            '0',
            '0',
            hex_digit(((c as u32) / 16) as int),
            hex_digit(((c as u32) % 16) as int),
        ]
    } else {
        seq![c]
    }
}

/// The canonical JSON escape of a whole string, without the quotes.
pub open spec fn escape_string(s: Seq<char>) -> Seq<char>
    decreases s.len(),
{
    if s.len() == 0 {
        Seq::empty()
    } else {
        escape_char(s[0]) + escape_string(s.drop_first())
    }
}

/// A JSON string literal: the escaped text between double quotes.
pub open spec fn quoted(s: Seq<char>) -> Seq<char> {
    seq!['"'] + escape_string(s) + seq!['"']
}

/// The bare `snake_case` name of an [`ErrorType`] value.
pub open spec fn error_type_text(e: ErrorType) -> Seq<char> {
    match e {
        ErrorType::AuthError => "auth_error"@,
        ErrorType::Error => "error"@,
    }
}

/// The bare `snake_case` name of an [`AuthMessageType`] value.
pub open spec fn auth_message_type_text(k: AuthMessageType) -> Seq<char> {
    match k {
        AuthMessageType::Visible => "visible"@,
        AuthMessageType::Secret => "secret"@,
        AuthMessageType::Info => "info"@,
        AuthMessageType::Error => "error"@,
    }
}

/// The items of a JSON array of strings, comma separated.
pub open spec fn string_array_items(ss: Seq<Seq<char>>) -> Seq<char>
    decreases ss.len(),
{
    if ss.len() == 0 {
        Seq::empty()
    } else if ss.len() == 1 {
        quoted(ss[0])
    } else {
        quoted(ss[0]) + seq![','] + string_array_items(ss.drop_first())
    }
}

/// A JSON array of strings.
pub open spec fn string_array_text(ss: Seq<Seq<char>>) -> Seq<char> {
    seq!['['] + string_array_items(ss) + seq![']']
}

/// The canonical response text after the common `{"type":"` opening.
pub open spec fn response_body_text(r: ResponseView) -> Seq<char> {
    match r {
        ResponseView::Success => "success\"}"@,
        ResponseView::Error { error_type, description } =>
            "error\",\"error_type\":\""@ + error_type_text(error_type)
                + "\",\"description\":\""@ + escape_string(description) + "\"}"@,
        ResponseView::AuthMessage { auth_message_type, auth_message } =>
            "auth_message\",\"auth_message_type\":\""@ + auth_message_type_text(auth_message_type)
                + "\",\"auth_message\":\""@ + escape_string(auth_message) + "\"}"@,
    }
}

/// The canonical JSON text of a [`Response`].
pub open spec fn response_text(r: ResponseView) -> Seq<char> {
    "{\"type\":\""@ + response_body_text(r)
}

/// The canonical request text after the common `{"type":"` opening.
pub open spec fn request_body_text(r: RequestView) -> Seq<char> {
    match r {
        RequestView::CreateSession { username } =>
            "create_session\",\"username\":\""@ + escape_string(username) + "\"}"@,
        RequestView::PostAuthMessageResponse { response } => match response {
            Some(text) => "post_auth_message_response\",\"response\":\""@ + escape_string(text)
                + "\"}"@,
            None => "post_auth_message_response\",\"response\":null}"@,
        },
        RequestView::StartSession { command, env } =>
            "start_session\",\"command\":"@ + string_array_text(command) + ",\"env\":"@
                + string_array_text(env) + "}"@,
        RequestView::CancelSession => "cancel_session\"}"@,
    }
}

/// The canonical JSON text of a [`Request`].
pub open spec fn request_text(r: RequestView) -> Seq<char> {
    "{\"type\":\""@ + request_body_text(r)
}

// ------------------------------------------------------------------
// Facts about UTF-8 encoding and escaping used throughout the module
// ------------------------------------------------------------------

/// UTF-8 encoding of an empty character sequence is empty.
proof fn lemma_encode_utf8_empty()
    ensures
        encode_utf8(Seq::<char>::empty()) == Seq::<u8>::empty(),
{
    assert(encode_utf8(Seq::<char>::empty()) =~= Seq::<u8>::empty());
}

/// UTF-8 encoding peels off the first character.
proof fn lemma_encode_utf8_cons(c: char, s: Seq<char>)
    ensures
        encode_utf8(seq![c] + s) == encode_scalar(c as u32) + encode_utf8(s),
{
    let w = seq![c] + s;
    assert(w.len() != 0);
    assert(w[0] == c);
    assert(w.drop_first() =~= s);
}

/// UTF-8 encoding distributes over concatenation.
proof fn lemma_encode_utf8_app(a: Seq<char>, b: Seq<char>)
    ensures
        encode_utf8(a + b) == encode_utf8(a) + encode_utf8(b),
    decreases a.len(),
{
    if a.len() == 0 {
        assert(a + b =~= b);
        lemma_encode_utf8_empty();
        assert(a =~= Seq::<char>::empty());
        assert(encode_utf8(a) + encode_utf8(b) =~= encode_utf8(b));
    } else {
        let t = a.drop_first();
        assert(a =~= seq![a[0]] + t);
        assert(a + b =~= seq![a[0]] + (t + b));
        lemma_encode_utf8_cons(a[0], t + b);
        lemma_encode_utf8_cons(a[0], t);
        lemma_encode_utf8_app(t, b);
        assert(encode_scalar(a[0] as u32) + (encode_utf8(t) + encode_utf8(b)) =~= (encode_scalar(
            a[0] as u32,
        ) + encode_utf8(t)) + encode_utf8(b));
    }
}

/// Escaping distributes over concatenation.
proof fn lemma_escape_string_app(a: Seq<char>, b: Seq<char>)
    ensures
        escape_string(a + b) == escape_string(a) + escape_string(b),
    decreases a.len(),
{
    if a.len() == 0 {
        assert(a + b =~= b);
        assert(escape_string(a) + escape_string(b) =~= escape_string(b));
    } else {
        let t = a.drop_first();
        assert((a + b).len() != 0);
        assert((a + b)[0] == a[0]);
        assert((a + b).drop_first() =~= t + b);
        lemma_escape_string_app(t, b);
        assert(escape_char(a[0]) + (escape_string(t) + escape_string(b)) =~= (escape_char(a[0])
            + escape_string(t)) + escape_string(b));
    }
}

// ------------------------------------------------------------------
// The verified printer
// ------------------------------------------------------------------

/// Appends the UTF-8 encoding of one character.
fn push_char_utf8(out: &mut Vec<u8>, c: char)
    ensures
        final(out)@ == old(out)@ + encode_scalar(c as u32),
{
    let u = c as u32;
    proof {
        char_is_scalar(c);
    }
    if u <= 0x7F {
        out.push((u & 0x7F) as u8);
        assert(out@ =~= old(out)@ + encode_scalar(c as u32));
    } else if u <= 0x7FF {
        out.push(0xC0 | (((u >> 6) & 0x1F) as u8));
        out.push(0x80 | ((u & 0x3F) as u8));
        assert(out@ =~= old(out)@ + encode_scalar(c as u32));
    } else if u <= 0xFFFF {
        out.push(0xE0 | (((u >> 12) & 0x0F) as u8));
        out.push(0x80 | (((u >> 6) & 0x3F) as u8));
        out.push(0x80 | ((u & 0x3F) as u8));
        assert(out@ =~= old(out)@ + encode_scalar(c as u32));
    } else {
        out.push(0xF0 | (((u >> 18) & 0x7) as u8));
        out.push(0x80 | (((u >> 12) & 0x3F) as u8));
        out.push(0x80 | (((u >> 6) & 0x3F) as u8));
        out.push(0x80 | ((u & 0x3F) as u8));
        assert(out@ =~= old(out)@ + encode_scalar(c as u32));
    }
}

/// The lowercase hexadecimal digit character for `n`.
fn hex_digit_char(n: u32) -> (c: char)
    requires
        n < 16,
    ensures
        c == hex_digit(n as int),
{
    if n == 0 { '0' } else if n == 1 { '1' } else if n == 2 { '2' } else if n == 3 { '3' }
    else if n == 4 { '4' } else if n == 5 { '5' } else if n == 6 { '6' } else if n == 7 { '7' }
    else if n == 8 { '8' } else if n == 9 { '9' } else if n == 10 { 'a' } else if n == 11 { 'b' }
    else if n == 12 { 'c' } else if n == 13 { 'd' } else if n == 14 { 'e' } else { 'f' }
}

/// The canonical escape of one character, as characters.
fn escape_char_chars(c: char) -> (v: Vec<char>)
    ensures
        v@ == escape_char(c),
{
    let u = c as u32;
    if c == '"' {
        let v = vec!['\\', '"'];
        assert(v@ =~= escape_char(c));
        v
    } else if c == '\\' {
        let v = vec!['\\', '\\'];
        assert(v@ =~= escape_char(c));
        v
    } else if u == 0x08 {
        let v = vec!['\\', 'b'];
        assert(v@ =~= escape_char(c));
        v
    } else if u == 0x09 {
        let v = vec!['\\', 't'];
        assert(v@ =~= escape_char(c));
        v
    } else if u == 0x0A {
        let v = vec!['\\', 'n'];
        assert(v@ =~= escape_char(c));
        v
    } else if u == 0x0C {
        let v = vec!['\\', 'f'];
        assert(v@ =~= escape_char(c));
        v
    } else if u == 0x0D {
        let v = vec!['\\', 'r'];
        assert(v@ =~= escape_char(c));
        v
    } else if u < 0x20 {
        let v = vec!['\\', 'u', '0', '0', hex_digit_char(u / 16), hex_digit_char(u % 16)];
        assert(v@ =~= escape_char(c));
        v
    } else {
        let v = vec![c];
        assert(v@ =~= escape_char(c));
        v
    }
}

/// Appends the UTF-8 encoding of the canonical escape of a string.
fn push_escaped(out: &mut Vec<u8>, s: &str)
    ensures
        final(out)@ == old(out)@ + encode_utf8(escape_string(s@)),
{
    let ghost pre = out@;
    let n = s.unicode_len();
    proof {
        lemma_encode_utf8_empty();
        assert(s@.subrange(0, 0) =~= Seq::<char>::empty());
        assert(escape_string(s@.subrange(0, 0)) =~= Seq::<char>::empty());
        assert(pre + encode_utf8(escape_string(s@.subrange(0, 0))) =~= pre);
    }
    let mut i: usize = 0;
    while i < n
        invariant
            n == s@.len(),
            i <= n,
            out@ == pre + encode_utf8(escape_string(s@.subrange(0, i as int))),
        decreases n - i,
    {
        let c = s.get_char(i);
        let ec = escape_char_chars(c);
        let ghost mid = out@;
        let m = ec.len();
        let mut k: usize = 0;
        proof {
            lemma_encode_utf8_empty();
            assert(ec@.subrange(0, 0) =~= Seq::<char>::empty());
            assert(mid + encode_utf8(ec@.subrange(0, 0)) =~= mid);
        }
        while k < m
            invariant
                m == ec@.len(),
                k <= m,
                out@ == mid + encode_utf8(ec@.subrange(0, k as int)),
            decreases m - k,
        {
            push_char_utf8(out, ec[k]);
            proof {
                assert(ec@.subrange(0, k + 1) =~= ec@.subrange(0, k as int) + seq![ec@[k as int]]);
                lemma_encode_utf8_app(ec@.subrange(0, k as int), seq![ec@[k as int]]);
                lemma_encode_utf8_cons(ec@[k as int], Seq::empty());
                lemma_encode_utf8_empty();
                assert(seq![ec@[k as int]] + Seq::<char>::empty() =~= seq![ec@[k as int]]);
                assert(encode_scalar(ec@[k as int] as u32) + Seq::<u8>::empty() =~= encode_scalar(
                    ec@[k as int] as u32,
                ));
                assert(mid + encode_utf8(ec@.subrange(0, k + 1)) =~= mid + encode_utf8(
                    ec@.subrange(0, k as int),
                ) + encode_scalar(ec@[k as int] as u32));
            }
            k = k + 1;
        }
        proof {
            assert(ec@.subrange(0, m as int) =~= ec@);
            assert(s@.subrange(0, i + 1) =~= s@.subrange(0, i as int) + seq![s@[i as int]]);
            lemma_escape_string_app(s@.subrange(0, i as int), seq![s@[i as int]]);
            assert(escape_string(seq![s@[i as int]]) =~= escape_char(s@[i as int])) by {
                assert(seq![s@[i as int]].drop_first() =~= Seq::<char>::empty());
                assert(escape_string(Seq::<char>::empty()) =~= Seq::<char>::empty());
                assert(escape_char(s@[i as int]) + Seq::<char>::empty() =~= escape_char(
                    s@[i as int],
                ));
            }
            lemma_encode_utf8_app(
                escape_string(s@.subrange(0, i as int)),
                escape_char(s@[i as int]),
            );
            assert(pre + encode_utf8(escape_string(s@.subrange(0, i + 1))) =~= pre + encode_utf8(
                escape_string(s@.subrange(0, i as int)),
            ) + encode_utf8(escape_char(s@[i as int])));
        }
        i = i + 1;
    }
    proof {
        assert(s@.subrange(0, n as int) =~= s@);
    }
}

/// Appends the UTF-8 bytes of a literal or other string verbatim.
fn push_text(out: &mut Vec<u8>, s: &str)
    ensures
        final(out)@ == old(out)@ + encode_utf8(s@),
{
    out.extend_from_slice(s.as_bytes());
}

/// Appends a full JSON string literal (quotes and escaped contents).
fn push_quoted(out: &mut Vec<u8>, s: &str)
    ensures
        final(out)@ == old(out)@ + encode_utf8(quoted(s@)),
{
    let ghost pre = out@;
    push_text(out, "\"");
    push_escaped(out, s);
    push_text(out, "\"");
    proof {
        reveal_strlit("\"");
        assert("\""@ =~= seq!['"']);
        lemma_encode_utf8_app(seq!['"'] + escape_string(s@), seq!['"']);
        lemma_encode_utf8_app(seq!['"'], escape_string(s@));
        assert(quoted(s@) =~= (seq!['"'] + escape_string(s@)) + seq!['"']);
        assert(pre + encode_utf8(quoted(s@)) =~= pre + encode_utf8(seq!['"']) + encode_utf8(
            escape_string(s@),
        ) + encode_utf8(seq!['"']));
    }
}

/// Appends a JSON array holding each string of `items` in order.
fn push_string_array(out: &mut Vec<u8>, items: &Vec<String>)
    ensures
        final(out)@ == old(out)@ + encode_utf8(string_array_text(items.deep_view())),
{
    let ghost pre = out@;
    let ghost ss = items.deep_view();
    push_text(out, "[");
    let n = items.len();
    let mut i: usize = 0;
    proof {
        reveal_strlit("[");
        reveal_strlit(",");
        assert("["@ =~= seq!['[']);
        assert(","@ =~= seq![',']);
        assert(ss.len() == n);
        lemma_encode_utf8_empty();
        assert(ss.skip(0) =~= ss);
    }
    while i < n
        invariant
            n == items@.len(),
            ss == items.deep_view(),
            ss.len() == n,
            i <= n,
            out@ == pre + encode_utf8(seq!['['] + leading_array_items(ss, i as int)),
        decreases n - i,
    {
        if i > 0 {
            push_text(out, ",");
            proof {
                reveal_strlit(",");
                assert(","@ =~= seq![',']);
            }
        }
        push_quoted(out, items[i].as_str());
        proof {
            assert(items@[i as int]@ == ss[i as int]);
            if i > 0 {
                assert(leading_array_items(ss, i + 1) =~= leading_array_items(ss, i as int)
                    + seq![','] + quoted(ss[i as int]));
                lemma_encode_utf8_app(
                    seq!['['] + leading_array_items(ss, i as int) + seq![','],
                    quoted(ss[i as int]),
                );
                lemma_encode_utf8_app(seq!['['] + leading_array_items(ss, i as int), seq![',']);
                assert(seq!['['] + leading_array_items(ss, i + 1) =~= (seq!['[']
                    + leading_array_items(ss, i as int) + seq![',']) + quoted(ss[i as int]));
            } else {
                assert(leading_array_items(ss, 0) =~= Seq::<char>::empty());
                assert(leading_array_items(ss, 1) =~= quoted(ss[0]));
                lemma_encode_utf8_app(seq!['['], quoted(ss[0]));
                assert(seq!['['] + leading_array_items(ss, 0) =~= seq!['[']);
                assert(seq!['['] + leading_array_items(ss, 1) =~= seq!['['] + quoted(ss[0]));
            }
        }
        i = i + 1;
    }
    push_text(out, "]");
    proof {
        reveal_strlit("]");
        assert("]"@ =~= seq![']']);
        lemma_leading_array_items_all(ss);
        lemma_encode_utf8_app(seq!['['] + leading_array_items(ss, n as int), seq![']']);
        assert(string_array_text(ss) =~= (seq!['['] + leading_array_items(ss, n as int))
            + seq![']']);
    }
}

/// The first `i` items of a string array's rendering, comma separated.
spec fn leading_array_items(ss: Seq<Seq<char>>, i: int) -> Seq<char>
    decreases i,
{
    if i <= 0 {
        Seq::empty()
    } else if i == 1 {
        quoted(ss[0])
    } else {
        leading_array_items(ss, i - 1) + seq![','] + quoted(ss[i - 1])
    }
}

/// Rendering every leading item renders the whole item list.
proof fn lemma_leading_array_items_all(ss: Seq<Seq<char>>)
    ensures
        leading_array_items(ss, ss.len() as int) == string_array_items(ss),
    decreases ss.len(),
{
    if ss.len() == 0 {
        assert(string_array_items(ss) =~= Seq::<char>::empty());
    } else if ss.len() == 1 {
        assert(leading_array_items(ss, 1) =~= quoted(ss[0]));
    } else {
        let t = ss.drop_first();
        lemma_leading_array_items_all(t);
        lemma_leading_shift(ss, ss.len() as int);
        assert(string_array_items(ss) =~= quoted(ss[0]) + seq![','] + string_array_items(t));
    }
}

/// Shifts a leading-items rendering across `drop_first`.
proof fn lemma_leading_shift(ss: Seq<Seq<char>>, i: int)
    requires
        ss.len() >= 1,
        1 <= i <= ss.len(),
    ensures
        leading_array_items(ss, i) == quoted(ss[0]) + (if i == 1 {
            Seq::<char>::empty()
        } else {
            seq![','] + leading_array_items(ss.drop_first(), i - 1)
        }),
    decreases i,
{
    let t = ss.drop_first();
    if i == 1 {
        assert(leading_array_items(ss, 1) =~= quoted(ss[0]) + Seq::<char>::empty());
    } else if i == 2 {
        assert(t[0] == ss[1]);
        assert(leading_array_items(t, 1) =~= quoted(t[0]));
        assert(leading_array_items(ss, 1) =~= quoted(ss[0]));
        assert(leading_array_items(ss, 2) =~= leading_array_items(ss, 1) + seq![','] + quoted(
            ss[1],
        ));
        assert(leading_array_items(ss, 2) =~= quoted(ss[0]) + (seq![','] + leading_array_items(
            t,
            1,
        )));
    } else {
        lemma_leading_shift(ss, i - 1);
        assert(t[i - 2] == ss[i - 1]);
        assert(leading_array_items(t, i - 1) =~= leading_array_items(t, i - 2) + seq![',']
            + quoted(t[i - 2]));
        assert(leading_array_items(ss, i) =~= quoted(ss[0]) + (seq![','] + leading_array_items(
            t,
            i - 1,
        )));
    }
}

/// Prints the canonical JSON text of a request, as UTF-8 bytes.
pub fn encode_request_json(req: &Request) -> (out: Vec<u8>)
    ensures
        out@ == encode_utf8(request_text(req@)),
{
    let mut out: Vec<u8> = Vec::new();
    push_text(&mut out, "{\"type\":\"");
    match req {
        Request::CreateSession { username } => {
            push_text(&mut out, "create_session\",\"username\":\"");
            push_escaped(&mut out, username.as_str());
            push_text(&mut out, "\"}");
            proof {
                lemma_cat3(
                    "{\"type\":\""@,
                    "create_session\",\"username\":\""@,
                    escape_string(username@),
                    "\"}"@,
                );
            }
        },
        Request::PostAuthMessageResponse { response } => {
            match response {
                Some(text) => {
                    push_text(&mut out, "post_auth_message_response\",\"response\":\"");
                    push_escaped(&mut out, text.as_str());
                    push_text(&mut out, "\"}");
                    proof {
                        lemma_cat3(
                            "{\"type\":\""@,
                            "post_auth_message_response\",\"response\":\""@,
                            escape_string(text@),
                            "\"}"@,
                        );
                    }
                },
                None => {
                    push_text(&mut out, "post_auth_message_response\",\"response\":null}");
                    proof {
                        lemma_cat1(
                            "{\"type\":\""@,
                            "post_auth_message_response\",\"response\":null}"@,
                        );
                    }
                },
            }
        },
        Request::StartSession { command, env } => {
            push_text(&mut out, "start_session\",\"command\":");
            push_string_array(&mut out, command);
            push_text(&mut out, ",\"env\":");
            push_string_array(&mut out, env);
            push_text(&mut out, "}");
            proof {
                lemma_cat5(
                    "{\"type\":\""@,
                    "start_session\",\"command\":"@,
                    string_array_text(command.deep_view()),
                    ",\"env\":"@,
                    string_array_text(env.deep_view()),
                    "}"@,
                );
            }
        },
        Request::CancelSession => {
            push_text(&mut out, "cancel_session\"}");
            proof {
                lemma_cat1("{\"type\":\""@, "cancel_session\"}"@);
            }
        },
    }
    out
}

/// Prints the canonical JSON text of a response, as UTF-8 bytes.
///
/// The daemon is the one who sends responses; this printer exists because it
/// is the codec's own statement of the canonical form, and it lets tests and
/// callers exercise the decoder against known-good frames.
pub fn encode_response_json(resp: &Response) -> (out: Vec<u8>)
    ensures
        out@ == encode_utf8(response_text(resp@)),
{
    let mut out: Vec<u8> = Vec::new();
    push_text(&mut out, "{\"type\":\"");
    match resp {
        Response::Success => {
            push_text(&mut out, "success\"}");
            proof {
                lemma_cat1("{\"type\":\""@, "success\"}"@);
            }
        },
        Response::Error { error_type, description } => {
            match error_type {
                ErrorType::AuthError => push_text(&mut out, "error\",\"error_type\":\"auth_error"),
                ErrorType::Error => push_text(&mut out, "error\",\"error_type\":\"error"),
            }
            push_text(&mut out, "\",\"description\":\"");
            push_escaped(&mut out, description.as_str());
            push_text(&mut out, "\"}");
            proof {
                let et = error_type_text(*error_type);
                reveal_strlit("error\",\"error_type\":\"auth_error");
                reveal_strlit("error\",\"error_type\":\"error");
                reveal_strlit("error\",\"error_type\":\"");
                reveal_strlit("auth_error");
                reveal_strlit("error");
                match error_type {
                    ErrorType::AuthError => {
                        lemma_split_lit(
                            "error\",\"error_type\":\"auth_error"@,
                            "error\",\"error_type\":\""@,
                            "auth_error"@,
                        );
                    },
                    ErrorType::Error => {
                        lemma_split_lit(
                            "error\",\"error_type\":\"error"@,
                            "error\",\"error_type\":\""@,
                            "error"@,
                        );
                    },
                }
                lemma_cat5(
                    "{\"type\":\""@,
                    "error\",\"error_type\":\""@,
                    et,
                    "\",\"description\":\""@,
                    escape_string(description@),
                    "\"}"@,
                );
            }
        },
        Response::AuthMessage { auth_message_type, auth_message } => {
            match auth_message_type {
                AuthMessageType::Visible => push_text(
                    &mut out,
                    "auth_message\",\"auth_message_type\":\"visible",
                ),
                AuthMessageType::Secret => push_text(
                    &mut out,
                    "auth_message\",\"auth_message_type\":\"secret",
                ),
                AuthMessageType::Info => push_text(
                    &mut out,
                    "auth_message\",\"auth_message_type\":\"info",
                ),
                AuthMessageType::Error => push_text(
                    &mut out,
                    "auth_message\",\"auth_message_type\":\"error",
                ),
            }
            push_text(&mut out, "\",\"auth_message\":\"");
            push_escaped(&mut out, auth_message.as_str());
            push_text(&mut out, "\"}");
            proof {
                let kt = auth_message_type_text(*auth_message_type);
                reveal_strlit("auth_message\",\"auth_message_type\":\"visible");
                reveal_strlit("auth_message\",\"auth_message_type\":\"secret");
                reveal_strlit("auth_message\",\"auth_message_type\":\"info");
                reveal_strlit("auth_message\",\"auth_message_type\":\"error");
                reveal_strlit("auth_message\",\"auth_message_type\":\"");
                reveal_strlit("visible");
                reveal_strlit("secret");
                reveal_strlit("info");
                reveal_strlit("error");
                match auth_message_type {
                    AuthMessageType::Visible => {
                        lemma_split_lit(
                            "auth_message\",\"auth_message_type\":\"visible"@,
                            "auth_message\",\"auth_message_type\":\""@,
                            "visible"@,
                        );
                    },
                    AuthMessageType::Secret => {
                        lemma_split_lit(
                            "auth_message\",\"auth_message_type\":\"secret"@,
                            "auth_message\",\"auth_message_type\":\""@,
                            "secret"@,
                        );
                    },
                    AuthMessageType::Info => {
                        lemma_split_lit(
                            "auth_message\",\"auth_message_type\":\"info"@,
                            "auth_message\",\"auth_message_type\":\""@,
                            "info"@,
                        );
                    },
                    AuthMessageType::Error => {
                        lemma_split_lit(
                            "auth_message\",\"auth_message_type\":\"error"@,
                            "auth_message\",\"auth_message_type\":\""@,
                            "error"@,
                        );
                    },
                }
                lemma_cat5(
                    "{\"type\":\""@,
                    "auth_message\",\"auth_message_type\":\""@,
                    kt,
                    "\",\"auth_message\":\""@,
                    escape_string(auth_message@),
                    "\"}"@,
                );
            }
        },
    }
    out
}

// Helper lemmas packaging repeated UTF-8 concatenation reasoning.

/// Bytes of `a` then `b` are the bytes of `a + b`.
proof fn lemma_cat1(a: Seq<char>, b: Seq<char>)
    ensures
        encode_utf8(a) + encode_utf8(b) == encode_utf8(a + b),
{
    lemma_encode_utf8_app(a, b);
}

/// Bytes pushed as `a`, `b`, `c`, `d` are the bytes of `a + (b + c + d)`.
proof fn lemma_cat3(a: Seq<char>, b: Seq<char>, c: Seq<char>, d: Seq<char>)
    ensures
        encode_utf8(a) + encode_utf8(b) + encode_utf8(c) + encode_utf8(d) == encode_utf8(
            a + (b + c + d),
        ),
{
    lemma_encode_utf8_app(b, c);
    lemma_encode_utf8_app(b + c, d);
    lemma_encode_utf8_app(a, b + c + d);
    assert(a + (b + c + d) =~= a + ((b + c) + d));
    assert(encode_utf8(a) + encode_utf8(b) + encode_utf8(c) + encode_utf8(d) =~= encode_utf8(a) + (
    encode_utf8(b) + encode_utf8(c) + encode_utf8(d)));
}

/// Bytes pushed as six pieces are the bytes of their concatenation.
proof fn lemma_cat5(a: Seq<char>, b: Seq<char>, c: Seq<char>, d: Seq<char>, e: Seq<char>, f: Seq<char>)
    ensures
        encode_utf8(a) + encode_utf8(b) + encode_utf8(c) + encode_utf8(d) + encode_utf8(e)
            + encode_utf8(f) == encode_utf8(a + (b + c + d + e + f)),
{
    lemma_encode_utf8_app(b, c);
    lemma_encode_utf8_app(b + c, d);
    lemma_encode_utf8_app(b + c + d, e);
    lemma_encode_utf8_app(b + c + d + e, f);
    lemma_encode_utf8_app(a, b + c + d + e + f);
    assert(encode_utf8(a) + encode_utf8(b) + encode_utf8(c) + encode_utf8(d) + encode_utf8(e)
        + encode_utf8(f) =~= encode_utf8(a) + (encode_utf8(b) + encode_utf8(c) + encode_utf8(d)
        + encode_utf8(e) + encode_utf8(f)));
}

/// A literal made of two pieces has the two pieces' characters.
proof fn lemma_split_lit(whole: Seq<char>, a: Seq<char>, b: Seq<char>)
    requires
        whole =~= a + b,
    ensures
        encode_utf8(whole) == encode_utf8(a) + encode_utf8(b),
{
    lemma_encode_utf8_app(a, b);
}

/// Escaping peels off the first character.
proof fn lemma_escape_string_cons(c: char, v: Seq<char>)
    ensures
        escape_string(seq![c] + v) == escape_char(c) + escape_string(v),
{
    let w = seq![c] + v;
    assert(w.len() != 0);
    assert(w[0] == c);
    assert(w.drop_first() =~= v);
}

/// Shape analysis of a single character's canonical escape.
proof fn lemma_escape_char_cases(c: char)
    ensures
        ({
            let e = escape_char(c);
            &&& (e.len() == 1 || e.len() == 2 || e.len() == 6)
            &&& e[0] != '"'
            &&& (e.len() == 1 ==> e[0] == c && c != '"' && c != '\\' && (c as u32) >= 0x20)
            &&& (e.len() >= 2 ==> e[0] == '\\')
            &&& (e.len() == 2 ==> {
                &&& (e[1] == '"' ==> c == '"')
                &&& (e[1] == '\\' ==> c == '\\')
                &&& (e[1] == 'b' ==> c == '\u{08}')
                &&& (e[1] == 't' ==> c == '\t')
                &&& (e[1] == 'n' ==> c == '\n')
                &&& (e[1] == 'f' ==> c == '\u{0c}')
                &&& (e[1] == 'r' ==> c == '\r')
                &&& (e[1] == '"' || e[1] == '\\' || e[1] == 'b' || e[1] == 't' || e[1] == 'n'
                    || e[1] == 'f' || e[1] == 'r')
            })
            &&& (e.len() == 6 ==> {
                &&& e[1] == 'u'
                &&& e[2] == '0'
                &&& e[3] == '0'
                &&& e[4] == hex_digit(((c as u32) / 16) as int)
                &&& e[5] == hex_digit(((c as u32) % 16) as int)
                &&& (c as u32) < 0x20
                &&& c != '\u{08}' && c != '\t' && c != '\n' && c != '\u{0c}' && c != '\r'
            })
        }),
{
}

// ------------------------------------------------------------------
// What a JSON text denotes
// ------------------------------------------------------------------
//
// The daemon may spell a response however the JSON grammar allows:
// whitespace between tokens, members in any order, any escape form inside
// strings.  [`crate::lexer::lex`] resolves all spelling; what remains is the
// shape of the token stream, stated here.  [`denotes_response`] is the
// decoder's specification: a text denotes a response when its tokens carry
// exactly that response's members, and [`lemma_denotes_unique`] shows a text
// denotes at most one response.


/// A canonical hex digit reads back as its value.
proof fn lemma_hex_nibble_digit(n: int)
    requires
        0 <= n < 16,
    ensures
        hex_nibble(hex_digit(n)) == n,
{
}

/// One member of a JSON object, at token positions `i .. i+2`.
pub open spec fn member_at(
    toks: Seq<JsonToken>,
    i: int,
    name: Seq<char>,
    value: Seq<char>,
) -> bool {
    &&& toks[i] == JsonToken::Text(name)
    &&& toks[i + 1] == JsonToken::Colon
    &&& toks[i + 2] == JsonToken::Text(value)
}

/// A one-member object: `{ name : value }`.
pub open spec fn object1_tokens(toks: Seq<JsonToken>, name: Seq<char>, value: Seq<char>) -> bool {
    &&& toks.len() == 5
    &&& toks[0] == JsonToken::LBrace
    &&& member_at(toks, 1, name, value)
    &&& toks[4] == JsonToken::RBrace
}

/// A three-member object carrying the given members in any order.
pub open spec fn object3_tokens(
    toks: Seq<JsonToken>,
    n1: Seq<char>,
    v1: Seq<char>,
    n2: Seq<char>,
    v2: Seq<char>,
    n3: Seq<char>,
    v3: Seq<char>,
) -> bool {
    &&& toks.len() == 13
    &&& toks[0] == JsonToken::LBrace
    &&& toks[4] == JsonToken::Comma
    &&& toks[8] == JsonToken::Comma
    &&& toks[12] == JsonToken::RBrace
    &&& ({
        ||| member_at(toks, 1, n1, v1) && member_at(toks, 5, n2, v2) && member_at(toks, 9, n3, v3)
        ||| member_at(toks, 1, n1, v1) && member_at(toks, 5, n3, v3) && member_at(toks, 9, n2, v2)
        ||| member_at(toks, 1, n2, v2) && member_at(toks, 5, n1, v1) && member_at(toks, 9, n3, v3)
        ||| member_at(toks, 1, n2, v2) && member_at(toks, 5, n3, v3) && member_at(toks, 9, n1, v1)
        ||| member_at(toks, 1, n3, v3) && member_at(toks, 5, n1, v1) && member_at(toks, 9, n2, v2)
        ||| member_at(toks, 1, n3, v3) && member_at(toks, 5, n2, v2) && member_at(toks, 9, n1, v1)
    })
}

/// The token shape of a response: its tagged members, in any member order.
pub open spec fn response_tokens(toks: Seq<JsonToken>, r: ResponseView) -> bool {
    match r {
        ResponseView::Success => object1_tokens(toks, "type"@, "success"@),
        ResponseView::Error { error_type, description } => object3_tokens(
            toks,
            "type"@,
            "error"@,
            "error_type"@,
            error_type_text(error_type),
            "description"@,
            description,
        ),
        ResponseView::AuthMessage { auth_message_type, auth_message } => object3_tokens(
            toks,
            "type"@,
            "auth_message"@,
            "auth_message_type"@,
            auth_message_type_text(auth_message_type),
            "auth_message"@,
            auth_message,
        ),
    }
}

/// A text denotes a response when it lexes and its tokens carry exactly
/// that response.
pub open spec fn denotes_response(t: Seq<char>, r: ResponseView) -> bool {
    match lex(t) {
        Some(toks) => response_tokens(toks, r),
        None => false,
    }
}

/// The member names and tag values this protocol uses are pairwise
/// distinct character sequences.
proof fn lemma_names_distinct()
    ensures
        "type"@ != "error_type"@,
        "type"@ != "description"@,
        "type"@ != "auth_message_type"@,
        "type"@ != "auth_message"@,
        "error_type"@ != "description"@,
        "auth_message_type"@ != "auth_message"@,
        "success"@ != "error"@,
        "success"@ != "auth_message"@,
        "error"@ != "auth_message"@,
        "auth_error"@ != "error"@,
        "visible"@ != "secret"@,
        "visible"@ != "info"@,
        "visible"@ != "error"@,
        "secret"@ != "info"@,
        "secret"@ != "error"@,
        "info"@ != "error"@,
{
    reveal_strlit("type");
    reveal_strlit("error_type");
    reveal_strlit("description");
    reveal_strlit("auth_message_type");
    reveal_strlit("auth_message");
    reveal_strlit("success");
    reveal_strlit("error");
    reveal_strlit("auth_error");
    reveal_strlit("visible");
    reveal_strlit("secret");
    reveal_strlit("info");
    // The names all have pairwise different lengths.
    assert("type"@.len() == 4);
    assert("error_type"@.len() == 10);
    assert("description"@.len() == 11);
    assert("auth_message_type"@.len() == 17);
    assert("auth_message"@.len() == 12);
    assert("success"@.len() == 7);
    assert("error"@.len() == 5);
    assert("auth_error"@.len() == 10);
    assert("visible"@.len() == 7);
    assert("secret"@.len() == 6);
    assert("info"@.len() == 4);
    assert("type"@[0] == 't' && "info"@[0] == 'i');
    assert("error_type"@[0] == 'e' && "auth_error"@[0] == 'a');
    assert("success"@[0] == 's' && "visible"@[0] == 'v');
}

/// In a three-member object with pairwise distinct names, each name's value
/// is determined: two readings of the same tokens agree member by member.
#[verifier::rlimit(100)]
proof fn lemma_object3_values(
    toks: Seq<JsonToken>,
    n1: Seq<char>,
    v1: Seq<char>,
    n2: Seq<char>,
    v2: Seq<char>,
    n3: Seq<char>,
    v3: Seq<char>,
    w1: Seq<char>,
    w2: Seq<char>,
    w3: Seq<char>,
)
    requires
        object3_tokens(toks, n1, v1, n2, v2, n3, v3),
        object3_tokens(toks, n1, w1, n2, w2, n3, w3),
        n1 != n2,
        n1 != n3,
        n2 != n3,
    ensures
        v1 == w1,
        v2 == w2,
        v3 == w3,
{
}

/// Two three-member objects over the same tokens that share one member
/// name, not used by the others, agree on that member's value.
#[verifier::rlimit(100)]
proof fn lemma_object3_shared_member(
    toks: Seq<JsonToken>,
    n1: Seq<char>,
    v1: Seq<char>,
    n2: Seq<char>,
    v2: Seq<char>,
    n3: Seq<char>,
    v3: Seq<char>,
    w1: Seq<char>,
    m2: Seq<char>,
    w2: Seq<char>,
    m3: Seq<char>,
    w3: Seq<char>,
)
    requires
        object3_tokens(toks, n1, v1, n2, v2, n3, v3),
        object3_tokens(toks, n1, w1, m2, w2, m3, w3),
        n1 != n2,
        n1 != n3,
        n1 != m2,
        n1 != m3,
    ensures
        v1 == w1,
{
}

/// A text denotes at most one response.
pub proof fn lemma_denotes_unique(t: Seq<char>, r1: ResponseView, r2: ResponseView)
    requires
        denotes_response(t, r1),
        denotes_response(t, r2),
    ensures
        r1 == r2,
{
    let toks = lex(t)->Some_0;
    lemma_names_distinct();
    reveal_strlit("auth_error");
    reveal_strlit("error");
    reveal_strlit("visible");
    reveal_strlit("secret");
    reveal_strlit("info");
    match (r1, r2) {
        (ResponseView::Success, ResponseView::Success) => {},
        (
            ResponseView::Error { error_type: et1, description: d1 },
            ResponseView::Error { error_type: et2, description: d2 },
        ) => {
            lemma_object3_values(
                toks,
                "type"@,
                "error"@,
                "error_type"@,
                error_type_text(et1),
                "description"@,
                d1,
                "error"@,
                error_type_text(et2),
                d2,
            );
            assert(error_type_text(et1) == error_type_text(et2));
            assert(et1 == et2) by {
                if et1 != et2 {
                    assert("auth_error"@ == "error"@);
                }
            };
        },
        (
            ResponseView::AuthMessage { auth_message_type: k1, auth_message: m1 },
            ResponseView::AuthMessage { auth_message_type: k2, auth_message: m2 },
        ) => {
            lemma_object3_values(
                toks,
                "type"@,
                "auth_message"@,
                "auth_message_type"@,
                auth_message_type_text(k1),
                "auth_message"@,
                m1,
                "auth_message"@,
                auth_message_type_text(k2),
                m2,
            );
            assert(auth_message_type_text(k1) == auth_message_type_text(k2));
            assert(k1 == k2) by {
                if k1 != k2 {
                    assert(false);
                }
            };
        },
        (ResponseView::Error { error_type: et1, description: d1 },
            ResponseView::AuthMessage { auth_message_type: k2, auth_message: m2 }) => {
            lemma_object3_shared_member(
                toks,
                "type"@,
                "error"@,
                "error_type"@,
                error_type_text(et1),
                "description"@,
                d1,
                "auth_message"@,
                "auth_message_type"@,
                auth_message_type_text(k2),
                "auth_message"@,
                m2,
            );
            assert("error"@ == "auth_message"@);
        },
        (ResponseView::AuthMessage { auth_message_type: k1, auth_message: m1 },
            ResponseView::Error { error_type: et2, description: d2 }) => {
            lemma_object3_shared_member(
                toks,
                "type"@,
                "auth_message"@,
                "auth_message_type"@,
                auth_message_type_text(k1),
                "auth_message"@,
                m1,
                "error"@,
                "error_type"@,
                error_type_text(et2),
                "description"@,
                d2,
            );
            assert("auth_message"@ == "error"@);
        },
        _ => {},
    }
}

// ------------------------------------------------------------------
// The canonical text is a witness
// ------------------------------------------------------------------

/// A character the canonical escaping leaves as itself.
pub open spec fn raw_char(c: char) -> bool {
    c != '"' && c != '\\' && (c as u32) >= 0x20
}

/// Text of raw characters is its own canonical escape.
proof fn lemma_escape_string_raw(s: Seq<char>)
    requires
        forall|i: int| 0 <= i < s.len() ==> raw_char(#[trigger] s[i]),
    ensures
        escape_string(s) == s,
    decreases s.len(),
{
    if s.len() == 0 {
        assert(escape_string(s) =~= s);
    } else {
        assert(raw_char(s[0]));
        assert(escape_char(s[0]) =~= seq![s[0]]);
        assert forall|i: int| 0 <= i < s.drop_first().len() implies raw_char(
            #[trigger] s.drop_first()[i],
        ) by {
            assert(s.drop_first()[i] == s[i + 1]);
        }
        lemma_escape_string_raw(s.drop_first());
        assert(escape_string(s) =~= s);
    }
}

/// A canonical hex digit reads back as its value.
proof fn lemma_hex_nibble_of_digit(n: int)
    requires
        0 <= n < 16,
    ensures
        hex_nibble(hex_digit(n)) == n,
{
}

/// The lexer reads a canonically escaped, quote-terminated body back as
/// exactly the original characters.
#[verifier::rlimit(100)]
proof fn lemma_lex_string_canonical(t: Seq<char>, i: int, v: Seq<char>)
    requires
        0 <= i,
        i + escape_string(v).len() + 1 <= t.len(),
        t.subrange(i, i + escape_string(v).len() + 1) == escape_string(v) + seq!['"'],
    ensures
        lex_string(t, i) == Some((v, i + escape_string(v).len() + 1)),
    decreases v.len(),
{
    let esc = escape_string(v);
    if v.len() == 0 {
        assert(esc =~= Seq::<char>::empty());
        assert(t.subrange(i, i + 1)[0] == t[i]);
        assert((esc + seq!['"'])[0] == '"');
        assert(v =~= Seq::<char>::empty());
    } else {
        let e = escape_char(v[0]);
        lemma_escape_char_cases(v[0]);
        lemma_escape_string_cons(v[0], v.drop_first());
        assert(seq![v[0]] + v.drop_first() =~= v);
        let rest = escape_string(v.drop_first());
        assert(esc == e + rest);
        assert forall|m: int| 0 <= m < e.len() implies t[i + m] == e[m] by {
            assert(t.subrange(i, i + esc.len() + 1)[m] == t[i + m]);
            assert((esc + seq!['"'])[m] == e[m]);
        }
        assert(t.subrange(i + e.len(), i + e.len() + rest.len() + 1) =~= rest + seq!['"']) by {
            assert forall|m: int| 0 <= m < rest.len() + 1 implies t[i + e.len() + m] == (rest
                + seq!['"'])[m] by {
                assert(t.subrange(i, i + esc.len() + 1)[e.len() + m] == t[i + e.len() + m]);
                assert((esc + seq!['"'])[e.len() + m] == (rest + seq!['"'])[m]);
            }
        }
        lemma_lex_string_canonical(t, i + e.len(), v.drop_first());
        if e.len() == 1 {
            assert(t[i] == v[0]);
            assert(seq![t[i]] + v.drop_first() =~= v);
        } else if e.len() == 2 {
            assert(t[i] == '\\' && t[i + 1] == e[1]);
            assert(lex_escape(t, i) == Some((v[0], 2int)));
        } else {
            let u = v[0] as u32;
            assert(t[i] == '\\' && t[i + 1] == 'u' && t[i + 2] == '0' && t[i + 3] == '0');
            assert(t[i + 4] == hex_digit((u / 16) as int));
            assert(t[i + 5] == hex_digit((u % 16) as int));
            lemma_hex_nibble_of_digit((u / 16) as int);
            lemma_hex_nibble_of_digit((u % 16) as int);
            assert(hex4(t, i + 2) == u) by {
                assert(hex_nibble('0') == 0);
                assert(hex_nibble(t[i + 4]) == (u / 16) as int);
                assert(hex_nibble(t[i + 5]) == (u % 16) as int);
                assert(16 * (u / 16) + (u % 16) == u) by (nonlinear_arith);
            };
            assert(lex_escape(t, i) == Some(((u as u32) as char, 6int)));
            vstd::utf8::char_u32_cast(v[0], u);
            assert(seq![v[0]] + v.drop_first() =~= v);
        }
    }
}

/// The canonical text of one token.
pub open spec fn token_text_of(tok: JsonToken) -> Seq<char> {
    match tok {
        JsonToken::LBrace => seq!['{'],
        JsonToken::RBrace => seq!['}'],
        JsonToken::Colon => seq![':'],
        JsonToken::Comma => seq![','],
        JsonToken::Text(v) => seq!['"'] + escape_string(v) + seq!['"'],
    }
}

/// The canonical text of a token sequence.
pub open spec fn render_tokens(ts: Seq<JsonToken>) -> Seq<char>
    decreases ts.len(),
{
    if ts.len() == 0 {
        Seq::empty()
    } else {
        token_text_of(ts[0]) + render_tokens(ts.drop_first())
    }
}

/// The lexer reads a canonical rendering back as exactly its tokens.
#[verifier::rlimit(100)]
proof fn lemma_lex_render(ts: Seq<JsonToken>)
    ensures
        lex(render_tokens(ts)) == Some(ts),
    decreases ts.len(),
{
    let t = render_tokens(ts);
    if ts.len() == 0 {
        assert(ts =~= Seq::<JsonToken>::empty());
    } else {
        let rest = render_tokens(ts.drop_first());
        let h = token_text_of(ts[0]);
        lemma_lex_render(ts.drop_first());
        assert(t == h + rest);
        match ts[0] {
            JsonToken::Text(v) => {
                let esc = escape_string(v);
                assert(t[0] == '"');
                assert(t.subrange(1, 1 + esc.len() as int + 1) =~= esc + seq!['"']) by {
                    assert forall|m: int| 0 <= m < esc.len() + 1 implies t[1 + m] == (esc
                        + seq!['"'])[m] by {
                        assert(t[1 + m] == h[1 + m]);
                    }
                }
                lemma_lex_string_canonical(t, 1, v);
                lemma_lex_at_shift(t, 1 + esc.len() as int + 1, 1 + esc.len() as int + 1);
                assert(t.skip(1 + esc.len() as int + 1) =~= rest);
                assert(lex_at(t, 0) == cons_token(JsonToken::Text(v), lex_at(
                    t,
                    1 + esc.len() as int + 1,
                )));
                assert(seq![ts[0]] + ts.drop_first() =~= ts);
            },
            _ => {
                assert(t[0] == h[0]);
                lemma_lex_at_shift(t, 1, 1);
                assert(t.skip(1) =~= rest);
                assert(lex_at(t, 0) == cons_token(ts[0], lex_at(t, 1)));
                assert(seq![ts[0]] + ts.drop_first() =~= ts);
            },
        }
    }
}

/// The tokens of each response's canonical text, in canonical order.
pub open spec fn response_token_list(r: ResponseView) -> Seq<JsonToken> {
    match r {
        ResponseView::Success => seq![
            JsonToken::LBrace,
            JsonToken::Text("type"@),
            JsonToken::Colon,
            JsonToken::Text("success"@),
            JsonToken::RBrace,
        ],
        ResponseView::Error { error_type, description } => seq![
            JsonToken::LBrace,
            JsonToken::Text("type"@),
            JsonToken::Colon,
            JsonToken::Text("error"@),
            JsonToken::Comma,
            JsonToken::Text("error_type"@),
            JsonToken::Colon,
            JsonToken::Text(error_type_text(error_type)),
            JsonToken::Comma,
            JsonToken::Text("description"@),
            JsonToken::Colon,
            JsonToken::Text(description),
            JsonToken::RBrace,
        ],
        ResponseView::AuthMessage { auth_message_type, auth_message } => seq![
            JsonToken::LBrace,
            JsonToken::Text("type"@),
            JsonToken::Colon,
            JsonToken::Text("auth_message"@),
            JsonToken::Comma,
            JsonToken::Text("auth_message_type"@),
            JsonToken::Colon,
            JsonToken::Text(auth_message_type_text(auth_message_type)),
            JsonToken::Comma,
            JsonToken::Text("auth_message"@),
            JsonToken::Colon,
            JsonToken::Text(auth_message),
            JsonToken::RBrace,
        ],
    }
}

/// Spells out the rendering of a 5-token sequence.
#[verifier::rlimit(100)]
proof fn lemma_render5(a: JsonToken, b: JsonToken, c: JsonToken, d: JsonToken, e: JsonToken)
    ensures
        render_tokens(seq![a, b, c, d, e]) == token_text_of(a) + (token_text_of(b) + (token_text_of(c) + (token_text_of(d) + (token_text_of(e))))),
{
    let l0 = seq![a, b, c, d, e];
    let l1 = seq![b, c, d, e];
    assert(l0.drop_first() =~= l1);
    let l2 = seq![c, d, e];
    assert(l1.drop_first() =~= l2);
    let l3 = seq![d, e];
    assert(l2.drop_first() =~= l3);
    let l4 = seq![e];
    assert(l3.drop_first() =~= l4);
    assert(l4.drop_first() =~= Seq::<JsonToken>::empty());
    assert(render_tokens(Seq::<JsonToken>::empty()) =~= Seq::<char>::empty());
    assert(render_tokens(l4) =~= token_text_of(e));
    assert(render_tokens(l3) == token_text_of(d) + render_tokens(l4));
    assert(render_tokens(l2) == token_text_of(c) + render_tokens(l3));
    assert(render_tokens(l1) == token_text_of(b) + render_tokens(l2));
    assert(render_tokens(l0) == token_text_of(a) + render_tokens(l1));
}

/// Spells out the rendering of a 13-token sequence.
#[verifier::rlimit(100)]
proof fn lemma_render13(a: JsonToken, b: JsonToken, c: JsonToken, d: JsonToken, e: JsonToken, f: JsonToken, g: JsonToken, h: JsonToken, i: JsonToken, j: JsonToken, k: JsonToken, l: JsonToken, m: JsonToken)
    ensures
        render_tokens(seq![a, b, c, d, e, f, g, h, i, j, k, l, m]) == token_text_of(a) + (token_text_of(b) + (token_text_of(c) + (token_text_of(d) + (token_text_of(e) + (token_text_of(f) + (token_text_of(g) + (token_text_of(h) + (token_text_of(i) + (token_text_of(j) + (token_text_of(k) + (token_text_of(l) + (token_text_of(m))))))))))))),
{
    let l0 = seq![a, b, c, d, e, f, g, h, i, j, k, l, m];
    let l1 = seq![b, c, d, e, f, g, h, i, j, k, l, m];
    assert(l0.drop_first() =~= l1);
    let l2 = seq![c, d, e, f, g, h, i, j, k, l, m];
    assert(l1.drop_first() =~= l2);
    let l3 = seq![d, e, f, g, h, i, j, k, l, m];
    assert(l2.drop_first() =~= l3);
    let l4 = seq![e, f, g, h, i, j, k, l, m];
    assert(l3.drop_first() =~= l4);
    let l5 = seq![f, g, h, i, j, k, l, m];
    assert(l4.drop_first() =~= l5);
    let l6 = seq![g, h, i, j, k, l, m];
    assert(l5.drop_first() =~= l6);
    let l7 = seq![h, i, j, k, l, m];
    assert(l6.drop_first() =~= l7);
    let l8 = seq![i, j, k, l, m];
    assert(l7.drop_first() =~= l8);
    let l9 = seq![j, k, l, m];
    assert(l8.drop_first() =~= l9);
    let l10 = seq![k, l, m];
    assert(l9.drop_first() =~= l10);
    let l11 = seq![l, m];
    assert(l10.drop_first() =~= l11);
    let l12 = seq![m];
    assert(l11.drop_first() =~= l12);
    assert(l12.drop_first() =~= Seq::<JsonToken>::empty());
    assert(render_tokens(Seq::<JsonToken>::empty()) =~= Seq::<char>::empty());
    assert(render_tokens(l12) =~= token_text_of(m));
    assert(render_tokens(l11) == token_text_of(l) + render_tokens(l12));
    assert(render_tokens(l10) == token_text_of(k) + render_tokens(l11));
    assert(render_tokens(l9) == token_text_of(j) + render_tokens(l10));
    assert(render_tokens(l8) == token_text_of(i) + render_tokens(l9));
    assert(render_tokens(l7) == token_text_of(h) + render_tokens(l8));
    assert(render_tokens(l6) == token_text_of(g) + render_tokens(l7));
    assert(render_tokens(l5) == token_text_of(f) + render_tokens(l6));
    assert(render_tokens(l4) == token_text_of(e) + render_tokens(l5));
    assert(render_tokens(l3) == token_text_of(d) + render_tokens(l4));
    assert(render_tokens(l2) == token_text_of(c) + render_tokens(l3));
    assert(render_tokens(l1) == token_text_of(b) + render_tokens(l2));
    assert(render_tokens(l0) == token_text_of(a) + render_tokens(l1));
}

/// The fixed member names and tag values consist of raw characters.
proof fn lemma_fixed_names_raw()
    ensures
        escape_string("type"@) == "type"@,
        escape_string("success"@) == "success"@,
        escape_string("error"@) == "error"@,
        escape_string("error_type"@) == "error_type"@,
        escape_string("description"@) == "description"@,
        escape_string("auth_message"@) == "auth_message"@,
        escape_string("auth_message_type"@) == "auth_message_type"@,
        escape_string("auth_error"@) == "auth_error"@,
        escape_string("visible"@) == "visible"@,
        escape_string("secret"@) == "secret"@,
        escape_string("info"@) == "info"@,
{
    reveal_strlit("type");
    reveal_strlit("success");
    reveal_strlit("error");
    reveal_strlit("error_type");
    reveal_strlit("description");
    reveal_strlit("auth_message");
    reveal_strlit("auth_message_type");
    reveal_strlit("auth_error");
    reveal_strlit("visible");
    reveal_strlit("secret");
    reveal_strlit("info");
    lemma_escape_string_raw("type"@);
    lemma_escape_string_raw("success"@);
    lemma_escape_string_raw("error"@);
    lemma_escape_string_raw("error_type"@);
    lemma_escape_string_raw("description"@);
    lemma_escape_string_raw("auth_message"@);
    lemma_escape_string_raw("auth_message_type"@);
    lemma_escape_string_raw("auth_error"@);
    lemma_escape_string_raw("visible"@);
    lemma_escape_string_raw("secret"@);
    lemma_escape_string_raw("info"@);
}

/// The canonical text of a response is the rendering of its token list.
#[verifier::rlimit(100)]
proof fn lemma_response_text_is_render(r: ResponseView)
    ensures
        response_text(r) == render_tokens(response_token_list(r)),
{
    lemma_fixed_names_raw();
    match r {
        ResponseView::Success => {
            lemma_render5(
                JsonToken::LBrace,
                JsonToken::Text("type"@),
                JsonToken::Colon,
                JsonToken::Text("success"@),
                JsonToken::RBrace,
            );
            reveal_strlit("type");
            reveal_strlit("success");
            reveal_strlit("{\"type\":\"");
            reveal_strlit("success\"}");
            assert(response_text(r) =~= render_tokens(response_token_list(r)));
        },
        ResponseView::Error { error_type, description } => {
            let ett = error_type_text(error_type);
            assert(escape_string(ett) == ett) by {
                match error_type {
                    ErrorType::AuthError => {},
                    ErrorType::Error => {},
                }
            };
            lemma_render13(
                JsonToken::LBrace,
                JsonToken::Text("type"@),
                JsonToken::Colon,
                JsonToken::Text("error"@),
                JsonToken::Comma,
                JsonToken::Text("error_type"@),
                JsonToken::Colon,
                JsonToken::Text(ett),
                JsonToken::Comma,
                JsonToken::Text("description"@),
                JsonToken::Colon,
                JsonToken::Text(description),
                JsonToken::RBrace,
            );
            reveal_strlit("type");
            reveal_strlit("error");
            reveal_strlit("error_type");
            reveal_strlit("description");
            reveal_strlit("{\"type\":\"");
            reveal_strlit("error\",\"error_type\":\"");
            reveal_strlit("\",\"description\":\"");
            reveal_strlit("\"}");
            assert(response_text(r) =~= render_tokens(response_token_list(r)));
        },
        ResponseView::AuthMessage { auth_message_type, auth_message } => {
            let ktt = auth_message_type_text(auth_message_type);
            assert(escape_string(ktt) == ktt) by {
                match auth_message_type {
                    AuthMessageType::Visible => {},
                    AuthMessageType::Secret => {},
                    AuthMessageType::Info => {},
                    AuthMessageType::Error => {},
                }
            };
            lemma_render13(
                JsonToken::LBrace,
                JsonToken::Text("type"@),
                JsonToken::Colon,
                JsonToken::Text("auth_message"@),
                JsonToken::Comma,
                JsonToken::Text("auth_message_type"@),
                JsonToken::Colon,
                JsonToken::Text(ktt),
                JsonToken::Comma,
                JsonToken::Text("auth_message"@),
                JsonToken::Colon,
                JsonToken::Text(auth_message),
                JsonToken::RBrace,
            );
            reveal_strlit("type");
            reveal_strlit("auth_message");
            reveal_strlit("auth_message_type");
            reveal_strlit("{\"type\":\"");
            reveal_strlit("auth_message\",\"auth_message_type\":\"");
            reveal_strlit("\",\"auth_message\":\"");
            reveal_strlit("\"}");
            assert(response_text(r) =~= render_tokens(response_token_list(r)));
        },
    }
}

/// Every response's canonical text denotes it: the witness half of the
/// round trip.
pub proof fn lemma_canonical_denotes(r: ResponseView)
    ensures
        denotes_response(response_text(r), r),
{
    lemma_response_text_is_render(r);
    lemma_lex_render(response_token_list(r));
    assert(response_tokens(response_token_list(r), r));
}

/// Distinct responses have distinct canonical texts: with
/// [`lemma_canonical_denotes`] and [`lemma_denotes_unique`], decoding the
/// encoding of a response yields exactly that response.
pub proof fn lemma_response_text_injective(r1: ResponseView, r2: ResponseView)
    requires
        response_text(r1) == response_text(r2),
    ensures
        r1 == r2,
{
    lemma_canonical_denotes(r1);
    lemma_canonical_denotes(r2);
    lemma_denotes_unique(response_text(r1), r1, r2);
}

// ------------------------------------------------------------------
// The tolerant parser
// ------------------------------------------------------------------

/// Compares a string's characters with a pattern's.
fn str_eq_lit(a: &str, pat: &str) -> (r: bool)
    ensures
        r == (a@ == pat@),
{
    let n = a.unicode_len();
    let m = pat.unicode_len();
    if n != m {
        return false;
    }
    let mut i: usize = 0;
    while i < n
        invariant
            n == a@.len(),
            m == pat@.len(),
            n == m,
            i <= n,
            forall|q: int| 0 <= q < i ==> a@[q] == pat@[q],
        decreases n - i,
    {
        if a.get_char(i) != pat.get_char(i) {
            return false;
        }
        i = i + 1;
    }
    proof {
        assert(a@ =~= pat@);
    }
    true
}

/// Reads the error kind a bare name denotes.
fn parse_error_type(v: &str) -> (r: Option<ErrorType>)
    ensures
        match r {
            Some(et) => error_type_text(et) == v@,
            None => forall|et: ErrorType| error_type_text(et) != v@,
        },
{
    if str_eq_lit(v, "auth_error") {
        Some(ErrorType::AuthError)
    } else if str_eq_lit(v, "error") {
        Some(ErrorType::Error)
    } else {
        proof {
            assert forall|et: ErrorType| error_type_text(et) != v@ by {
                match et {
                    ErrorType::AuthError => {},
                    ErrorType::Error => {},
                }
            }
        }
        None
    }
}

/// Reads the prompt kind a bare name denotes.
fn parse_auth_kind(v: &str) -> (r: Option<AuthMessageType>)
    ensures
        match r {
            Some(k) => auth_message_type_text(k) == v@,
            None => forall|k: AuthMessageType| auth_message_type_text(k) != v@,
        },
{
    if str_eq_lit(v, "visible") {
        Some(AuthMessageType::Visible)
    } else if str_eq_lit(v, "secret") {
        Some(AuthMessageType::Secret)
    } else if str_eq_lit(v, "info") {
        Some(AuthMessageType::Info)
    } else if str_eq_lit(v, "error") {
        Some(AuthMessageType::Error)
    } else {
        proof {
            assert forall|k: AuthMessageType| auth_message_type_text(k) != v@ by {
                match k {
                    AuthMessageType::Visible => {},
                    AuthMessageType::Secret => {},
                    AuthMessageType::Info => {},
                    AuthMessageType::Error => {},
                }
            }
        }
        None
    }
}

/// Matches a token stream against the three response shapes.
#[verifier::rlimit(100)]
fn match_tokens(toks: &Vec<Token>) -> (r: Option<Response>)
    ensures
        match r {
            Some(resp) => response_tokens(tokens_view(toks@), resp@),
            None => forall|rv: ResponseView| !response_tokens(tokens_view(toks@), rv),
        },
{
    let ghost tv = tokens_view(toks@);
    let n = toks.len();
    if n == 5 {
        if !(matches!(toks[0], Token::LBrace) && matches!(toks[2], Token::Colon) && matches!(
            toks[4],
            Token::RBrace,
        )) {
            return None;
        }
        match (&toks[1], &toks[3]) {
            (Token::Text(name), Token::Text(value)) => {
                if str_eq_lit(name.as_str(), "type") && str_eq_lit(value.as_str(), "success") {
                    proof {
                        assert(object1_tokens(tv, "type"@, "success"@));
                    }
                    Some(Response::Success)
                } else {
                    None
                }
            },
            _ => None,
        }
    } else if n == 13 {
        if !(matches!(toks[0], Token::LBrace) && matches!(toks[4], Token::Comma) && matches!(
            toks[8],
            Token::Comma,
        ) && matches!(toks[12], Token::RBrace) && matches!(toks[2], Token::Colon) && matches!(
            toks[6],
            Token::Colon,
        ) && matches!(toks[10], Token::Colon)) {
            return None;
        }
        match (&toks[1], &toks[3], &toks[5], &toks[7], &toks[9], &toks[11]) {
            (
                Token::Text(name0),
                Token::Text(val0),
                Token::Text(name1),
                Token::Text(val1),
                Token::Text(name2),
                Token::Text(val2),
            ) => {
                proof {
                    lemma_names_distinct();
                }
                let t0 = str_eq_lit(name0.as_str(), "type");
                let t1 = str_eq_lit(name1.as_str(), "type");
                let t2 = str_eq_lit(name2.as_str(), "type");
                // The tag member must appear exactly once.
                let (tagv, na, va, nb, vb) = if t0 && !t1 && !t2 {
                    (val0, name1, val1, name2, val2)
                } else if !t0 && t1 && !t2 {
                    (val1, name0, val0, name2, val2)
                } else if !t0 && !t1 && t2 {
                    (val2, name0, val0, name1, val1)
                } else {
                    return None;
                };
                let tag_error = str_eq_lit(tagv.as_str(), "error");
                let tag_auth = str_eq_lit(tagv.as_str(), "auth_message");
                if tag_error {
                    let a_et = str_eq_lit(na.as_str(), "error_type");
                    let b_et = str_eq_lit(nb.as_str(), "error_type");
                    let a_d = str_eq_lit(na.as_str(), "description");
                    let b_d = str_eq_lit(nb.as_str(), "description");
                    let (etv, dv) = if a_et && b_d {
                        (va, vb)
                    } else if a_d && b_et {
                        (vb, va)
                    } else {
                        return None;
                    };
                    match parse_error_type(etv.as_str()) {
                        Some(et) => {
                            proof {
                                assert(object3_tokens(
                                    tv,
                                    "type"@,
                                    "error"@,
                                    "error_type"@,
                                    error_type_text(et),
                                    "description"@,
                                    dv@,
                                ));
                            }
                            Some(
                                Response::Error { error_type: et, description: dv.clone() },
                            )
                        },
                        None => None,
                    }
                } else if tag_auth {
                    let a_k = str_eq_lit(na.as_str(), "auth_message_type");
                    let b_k = str_eq_lit(nb.as_str(), "auth_message_type");
                    let a_m = str_eq_lit(na.as_str(), "auth_message");
                    let b_m = str_eq_lit(nb.as_str(), "auth_message");
                    let (kv, mv) = if a_k && b_m {
                        (va, vb)
                    } else if a_m && b_k {
                        (vb, va)
                    } else {
                        return None;
                    };
                    match parse_auth_kind(kv.as_str()) {
                        Some(kind) => {
                            proof {
                                assert(object3_tokens(
                                    tv,
                                    "type"@,
                                    "auth_message"@,
                                    "auth_message_type"@,
                                    auth_message_type_text(kind),
                                    "auth_message"@,
                                    mv@,
                                ));
                            }
                            Some(
                                Response::AuthMessage {
                                    auth_message_type: kind,
                                    auth_message: mv.clone(),
                                },
                            )
                        },
                        None => None,
                    }
                } else {
                    None
                }
            },
            _ => None,
        }
    } else {
        None
    }
}

/// Parses a JSON text as a [`Response`].
///
/// Succeeds exactly when the text denotes a response under the tolerant
/// JSON reading — any whitespace, any member order, any escape spelling —
/// and then returns that response, the only one the text denotes
/// ([`lemma_denotes_unique`]).  `None` exactly when the text denotes no
/// response.
pub fn parse_response_json(s: &str) -> (r: Option<Response>)
    ensures
        match r {
            Some(resp) => denotes_response(s@, resp@),
            None => forall|rv: ResponseView| !denotes_response(s@, rv),
        },
{
    match tokenize(s) {
        Some(toks) => match_tokens(&toks),
        None => None,
    }
}

} // verus!

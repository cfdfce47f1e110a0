//! JSON text output.  Each response shape of the pipeline has one explicit
//! rendering function; all of them share the string escaper below, whose
//! output is pinned character by character by `spec_escape`.

use vstd::prelude::*;
use crate::strutil::{push_char, dec_seq, push_dec_u32};

verus! {

/// One hexadecimal digit, lower case.
pub open spec fn hex_digit(n: u32) -> char {
    if n < 10 {
        ((48 + n) as u8) as char
    } else {
        ((87 + n) as u8) as char
    }
}

/// The escaped form of one character inside a JSON string literal:
/// quote, backslash and the common control characters get their two-character
/// escapes, the remaining control characters get a `\u00XX` escape, and
/// everything else stands for itself.
pub open spec fn spec_escaped_char(c: char) -> Seq<char> {
    if c == '"' {
        seq!['\\', '"']
    } else if c == '\\' {
        seq!['\\', '\\']
    } else if c == '\n' {
        seq!['\\', 'n']
    } else if c == '\r' {
        seq!['\\', 'r']
    } else if c == '\t' {
        seq!['\\', 't']
    } else if (c as u32) < 32 {
        seq!['\\', 'u', '0', '0', hex_digit((c as u32) / 16), hex_digit((c as u32) % 16)]
    } else {
        seq![c]
    }
}

/// The body of a JSON string literal holding the characters of `s`.
pub open spec fn spec_escape(s: Seq<char>) -> Seq<char>
    decreases s.len(),
{
    if s.len() == 0 {
        Seq::empty()
    } else {
        spec_escaped_char(s[0]) + spec_escape(s.skip(1))
    }
}

pub proof fn lemma_escape_push(s: Seq<char>, c: char)
    ensures
        spec_escape(s.push(c)) == spec_escape(s) + spec_escaped_char(c),
    decreases s.len(),
{
    if s.len() == 0 {
        assert(spec_escape(Seq::<char>::empty()) == Seq::<char>::empty());
        assert(s.push(c).skip(1) =~= Seq::<char>::empty());
        assert(s.push(c)[0] == c);
        assert(spec_escape(s.push(c)) =~= spec_escape(s) + spec_escaped_char(c));
    } else {
        lemma_escape_push(s.skip(1), c);
        assert(s.push(c).skip(1) =~= s.skip(1).push(c));
        assert(s.push(c)[0] == s[0]);
        assert(spec_escape(s.push(c)) =~= spec_escape(s) + spec_escaped_char(c));
    }
}

/// Appends the escaped form of `c` to `out`.
fn push_escaped_char(out: &mut String, c: char)
    ensures
        final(out)@ == old(out)@ + spec_escaped_char(c),
{
    if c == '"' {
        out.append("\\\"");
    } else if c == '\\' {
        out.append("\\\\");
    } else if c == '\n' {
        out.append("\\n");
    } else if c == '\r' {
        out.append("\\r");
    } else if c == '\t' {
        out.append("\\t");
    } else if (c as u32) < 32 {
        out.append("\\u00");
        let v: u32 = c as u32;
        let hi: u32 = v / 16;
        let lo: u32 = v % 16;
        let hc: char = if hi < 10 {
            ((48 + hi) as u8) as char
        } else {
            ((87 + hi) as u8) as char
        };
        let lc: char = if lo < 10 {
            ((48 + lo) as u8) as char
        } else {
            ((87 + lo) as u8) as char
        };
        push_char(out, hc);
        push_char(out, lc);
        proof {
            reveal_strlit("\\u00");
            assert(out@ =~= old(out)@ + spec_escaped_char(c));
        }
    } else {
        push_char(out, c);
        proof {
            assert(out@ =~= old(out)@ + spec_escaped_char(c));
        }
    }
    proof {
        reveal_strlit("\\\"");
        reveal_strlit("\\\\");
        reveal_strlit("\\n");
        reveal_strlit("\\r");
        reveal_strlit("\\t");
        assert(out@ =~= old(out)@ + spec_escaped_char(c));
    }
}

/// Appends the escaped characters of `s` to `out`.
pub fn push_escaped(out: &mut String, s: &str)
    ensures
        final(out)@ == old(out)@ + spec_escape(s@),
{
    let n = s.unicode_len();
    let mut i: usize = 0;
    proof {
        assert(s@.take(0) =~= Seq::<char>::empty());
        assert(out@ =~= old(out)@ + spec_escape(s@.take(0)));
    }
    while i < n
        invariant
            n == s@.len(),
            0 <= i <= n,
            out@ == old(out)@ + spec_escape(s@.take(i as int)),
        decreases n - i,
    {
        let c = s.get_char(i);
        push_escaped_char(out, c);
        proof {
            lemma_escape_push(s@.take(i as int), c);
            assert(s@.take(i + 1) =~= s@.take(i as int).push(c));
        }
        i += 1;
    }
    proof {
        assert(s@.take(n as int) =~= s@);
    }
}

/// A JSON string literal holding the characters of `s`.
pub open spec fn spec_json_string(s: Seq<char>) -> Seq<char> {
    seq!['"'] + spec_escape(s) + seq!['"']
}

/// The uniform error body: `{"success":false,"message":"<escaped text>"}`.
pub open spec fn spec_envelope(msg: Seq<char>) -> Seq<char> {
    "{\"success\":false,\"message\":"@ + spec_json_string(msg) + "}"@
}

/// Renders the error envelope for `msg`.
pub fn render_envelope(msg: &str) -> (r: String)
    ensures
        r@ == spec_envelope(msg@),
{
    let mut out = String::new();
    out.append("{\"success\":false,\"message\":\"");
    push_escaped(&mut out, msg);
    out.append("\"}");
    proof {
        reveal_strlit("{\"success\":false,\"message\":\"");
        reveal_strlit("{\"success\":false,\"message\":");
        reveal_strlit("\"}");
        reveal_strlit("}");
        reveal_strlit("\"");
        assert(out@ =~= spec_envelope(msg@));
    }
    out
}

/// The echo body of the query endpoint:
/// `{"qs":{"name":"<escaped name>","id":<decimal id>}}`.
pub open spec fn spec_qs_echo(name: Seq<char>, id: u32) -> Seq<char> {
    "{\"qs\":{\"name\":"@ + spec_json_string(name) + ",\"id\":"@ + dec_seq(id as nat) + "}}"@
}

/// Renders the query echo body.
pub fn render_qs_echo(name: &str, id: u32) -> (r: String)
    ensures
        r@ == spec_qs_echo(name@, id),
{
    let mut out = String::new();
    out.append("{\"qs\":{\"name\":\"");
    push_escaped(&mut out, name);
    out.append("\",\"id\":");
    push_dec_u32(&mut out, id);
    out.append("}}");
    proof {
        reveal_strlit("{\"qs\":{\"name\":\"");
        reveal_strlit("{\"qs\":{\"name\":");
        reveal_strlit("\",\"id\":");
        reveal_strlit(",\"id\":");
        reveal_strlit("}}");
        reveal_strlit("\"");
        assert(out@ =~= spec_qs_echo(name@, id));
    }
    out
}

/// The body of the custom response shape:
/// `{"name":"<escaped name>","message":"<escaped message>"}`.
/// The shape deliberately has no `age` member.
pub open spec fn spec_custom_out(name: Seq<char>, message: Seq<char>) -> Seq<char> {
    "{\"name\":"@ + spec_json_string(name) + ",\"message\":"@ + spec_json_string(message) + "}"@
}

/// Renders the custom response body.
pub fn render_custom_out(name: &str, message: &str) -> (r: String)
    ensures
        r@ == spec_custom_out(name@, message@),
{
    let mut out = String::new();
    out.append("{\"name\":\"");
    push_escaped(&mut out, name);
    out.append("\",\"message\":\"");
    push_escaped(&mut out, message);
    out.append("\"}");
    proof {
        reveal_strlit("{\"name\":\"");
        reveal_strlit("{\"name\":");
        reveal_strlit("\",\"message\":\"");
        reveal_strlit(",\"message\":");
        reveal_strlit("\"}");
        reveal_strlit("}");
        reveal_strlit("\"");
        assert(out@ =~= spec_custom_out(name@, message@));
    }
    out
}

} // verus!

//! URL-encoded text: percent-decoding and `key=value` pair parsing, shared
//! by the query-string and form extractors.  Every executable function
//! mirrors a spec function of the same shape, so the parse result is pinned
//! for every input.

use vstd::prelude::*;
use crate::strutil::push_char;

verus! {

/// The view of an optional owned string.
pub open spec fn opt_str_view(o: Option<String>) -> Option<Seq<char>> {
    match o {
        Option::Some(s) => Option::Some(s@),
        Option::None => Option::None,
    }
}

/// The first position at or after `i` holding `c`, or the length.
pub open spec fn find_from(s: Seq<char>, i: int, c: char) -> int
    decreases s.len() - i,
{
    if i >= s.len() {
        s.len() as int
    } else if s[i] == c {
        i
    } else {
        find_from(s, i + 1, c)
    }
}

pub proof fn lemma_find_from(s: Seq<char>, i: int, c: char)
    requires
        0 <= i <= s.len(),
    ensures
        i <= find_from(s, i, c) <= s.len(),
    decreases s.len() - i,
{
    if i < s.len() && s[i] != c {
        lemma_find_from(s, i + 1, c);
    }
}

/// Finds the first position at or after `i` holding `c`.
pub fn find_from_at(s: &str, i: usize, c: char) -> (r: usize)
    requires
        i <= s@.len(),
    ensures
        r == find_from(s@, i as int, c),
        i <= r <= s@.len(),
    decreases s@.len() - i,
{
    let n = s.unicode_len();
    if i >= n {
        n
    } else if s.get_char(i) == c {
        i
    } else {
        find_from_at(s, i + 1, c)
    }
}

/// The value of one hexadecimal digit, upper or lower case.
pub open spec fn spec_hex_val(c: char) -> Option<u32> {
    let u = c as u32;
    if 48 <= u <= 57 {
        Option::Some((u - 48) as u32)
    } else if 97 <= u <= 102 {
        Option::Some((u - 87) as u32)
    } else if 65 <= u <= 70 {
        Option::Some((u - 55) as u32)
    } else {
        Option::None
    }
}

/// Reads one hexadecimal digit.
pub fn hex_val(c: char) -> (r: Option<u32>)
    ensures
        r == spec_hex_val(c),
{
    let u: u32 = c as u32;
    if 48 <= u && u <= 57 {
        Some(u - 48)
    } else if 97 <= u && u <= 102 {
        Some(u - 87)
    } else if 65 <= u && u <= 70 {
        Some(u - 55)
    } else {
        None
    }
}

/// Puts `c` in front of a decode result that may already have failed.
pub open spec fn cons_opt(c: char, r: Option<Seq<char>>) -> Option<Seq<char>> {
    match r {
        Option::Some(t) => Option::Some(seq![c] + t),
        Option::None => Option::None,
    }
}

/// The bytes of the run of consecutive percent escapes starting at `i`, and
/// the position after the run.  A `%` not heading two hexadecimal digits
/// fails.
pub open spec fn spec_pct_run(s: Seq<char>, i: int, hi: int) -> Option<(Seq<u8>, int)>
    decreases hi - i,
{
    if i < hi && s[i] == '%' {
        if i + 3 <= hi {
            match (spec_hex_val(s[i + 1]), spec_hex_val(s[i + 2])) {
                (Option::Some(a), Option::Some(b)) => match spec_pct_run(s, i + 3, hi) {
                    Option::Some((bs, e)) => Option::Some((seq![(16 * a + b) as u8] + bs, e)),
                    Option::None => Option::None,
                },
                _ => Option::None,
            }
        } else {
            Option::None
        }
    } else {
        Option::Some((Seq::empty(), i))
    }
}

pub proof fn lemma_pct_run(s: Seq<char>, i: int, hi: int)
    requires
        0 <= i <= hi,
    ensures
        spec_pct_run(s, i, hi) matches Option::Some(p) ==> i <= p.1 <= hi && (i < hi && s[i]
            == '%' ==> p.1 >= i + 3),
    decreases hi - i,
{
    if i < hi && s[i] == '%' && i + 3 <= hi {
        lemma_pct_run(s, i + 3, hi);
    }
}

fn pct_run_at(s: &str, i: usize, hi: usize) -> (r: Option<(Vec<u8>, usize)>)
    requires
        i <= hi,
        hi <= s@.len(),
    ensures
        match r {
            Option::Some(p) => spec_pct_run(s@, i as int, hi as int) == Option::Some(
                (p.0@, p.1 as int),
            ) && p.1 <= hi,
            Option::None => spec_pct_run(s@, i as int, hi as int) is None,
        },
    decreases hi - i,
{
    proof {
        lemma_pct_run(s@, i as int, hi as int);
    }
    if i < hi && s.get_char(i) == '%' {
        if hi - i >= 3 {
            let a = hex_val(s.get_char(i + 1));
            let b = hex_val(s.get_char(i + 2));
            match (a, b) {
                (Some(x), Some(y)) => match pct_run_at(s, i + 3, hi) {
                    Some((bs, e)) => {
                        let ghost tail = bs@;
                        let byte: u8 = (16 * x + y) as u8;
                        let mut v: Vec<u8> = Vec::new();
                        v.push(byte);
                        let mut rest = bs;
                        v.append(&mut rest);
                        proof {
                            assert(v@ =~= seq![byte] + tail);
                        }
                        Some((v, e))
                    },
                    None => None,
                },
                _ => None,
            }
        } else {
            None
        }
    } else {
        let v: Vec<u8> = Vec::new();
        proof {
            assert(v@ =~= Seq::<u8>::empty());
        }
        Some((v, i))
    }
}

/// The percent-decoding of `s[i..hi]`: `+` stands for a space, a maximal
/// run of percent escapes stands for the characters its bytes encode in
/// UTF-8, and every other character stands for itself.  A bad escape, or a
/// byte run that is not valid UTF-8, makes the whole segment malformed.
pub open spec fn spec_decode_seg(s: Seq<char>, i: int, hi: int) -> Option<Seq<char>>
    decreases hi - i,
    when 0 <= i <= hi
{
    if i >= hi {
        Option::Some(Seq::empty())
    } else if s[i] == '+' {
        cons_opt(' ', spec_decode_seg(s, i + 1, hi))
    } else if s[i] == '%' {
        proof {
            lemma_pct_run(s, i, hi);
        }
        match spec_pct_run(s, i, hi) {
            Option::Some((bs, e)) => if vstd::utf8::valid_utf8(bs) {
                match spec_decode_seg(s, e, hi) {
                    Option::Some(t) => Option::Some(vstd::utf8::decode_utf8(bs) + t),
                    Option::None => Option::None,
                }
            } else {
                Option::None
            },
            Option::None => Option::None,
        }
    } else {
        cons_opt(s[i], spec_decode_seg(s, i + 1, hi))
    }
}

/// Builds the string `c` followed by `rest`.
fn cons_char(c: char, rest: String) -> (r: String)
    ensures
        r@ == seq![c] + rest@,
{
    let mut t = String::new();
    push_char(&mut t, c);
    t.append(rest.as_str());
    proof {
        assert(t@ =~= seq![c] + rest@);
    }
    t
}

/// Percent-decodes `s[i..hi]`.
pub fn decode_seg(s: &str, i: usize, hi: usize) -> (r: Option<String>)
    requires
        i <= hi,
        hi <= s@.len(),
    ensures
        opt_str_view(r) == spec_decode_seg(s@, i as int, hi as int),
    decreases hi - i,
{
    if i >= hi {
        return Some(String::new());
    }
    let c = s.get_char(i);
    if c == '+' {
        match decode_seg(s, i + 1, hi) {
            Some(t) => Some(cons_char(' ', t)),
            None => None,
        }
    } else if c == '%' {
        proof {
            lemma_pct_run(s@, i as int, hi as int);
        }
        match pct_run_at(s, i, hi) {
            Some((bs, e)) => match crate::strutil::string_from_utf8(bs) {
                Some(d) => match decode_seg(s, e, hi) {
                    Some(t) => Some(d.concat(t.as_str())),
                    None => None,
                },
                None => None,
            },
            None => None,
        }
    } else {
        match decode_seg(s, i + 1, hi) {
            Some(t) => Some(cons_char(c, t)),
            None => None,
        }
    }
}

/// The percent-decoding of a path segment from `i`: like a query segment,
/// but `+` stands for itself.
pub open spec fn spec_decode_path_from(s: Seq<char>, i: int, hi: int) -> Option<Seq<char>>
    decreases hi - i,
    when 0 <= i <= hi
{
    if i >= hi {
        Option::Some(Seq::empty())
    } else if s[i] == '%' {
        proof {
            lemma_pct_run(s, i, hi);
        }
        match spec_pct_run(s, i, hi) {
            Option::Some((bs, e)) => if vstd::utf8::valid_utf8(bs) {
                match spec_decode_path_from(s, e, hi) {
                    Option::Some(t) => Option::Some(vstd::utf8::decode_utf8(bs) + t),
                    Option::None => Option::None,
                }
            } else {
                Option::None
            },
            Option::None => Option::None,
        }
    } else {
        cons_opt(s[i], spec_decode_path_from(s, i + 1, hi))
    }
}

/// The percent-decoding of a whole path segment.
pub open spec fn spec_decode_path(s: Seq<char>) -> Option<Seq<char>> {
    spec_decode_path_from(s, 0, s.len() as int)
}

fn decode_path_from(s: &str, i: usize, hi: usize) -> (r: Option<String>)
    requires
        i <= hi,
        hi <= s@.len(),
    ensures
        opt_str_view(r) == spec_decode_path_from(s@, i as int, hi as int),
    decreases hi - i,
{
    if i >= hi {
        return Some(String::new());
    }
    let c = s.get_char(i);
    if c == '%' {
        proof {
            lemma_pct_run(s@, i as int, hi as int);
        }
        match pct_run_at(s, i, hi) {
            Some((bs, e)) => match crate::strutil::string_from_utf8(bs) {
                Some(d) => match decode_path_from(s, e, hi) {
                    Some(t) => Some(d.concat(t.as_str())),
                    None => None,
                },
                None => None,
            },
            None => None,
        }
    } else {
        match decode_path_from(s, i + 1, hi) {
            Some(t) => Some(cons_char(c, t)),
            None => None,
        }
    }
}

/// Percent-decodes a whole path segment.
pub fn decode_path(s: &str) -> (r: Option<String>)
    ensures
        opt_str_view(r) == spec_decode_path(s@),
{
    decode_path_from(s, 0, s.unicode_len())
}

/// A segment without percent escapes decodes to itself.
pub proof fn lemma_decode_path_plain_from(s: Seq<char>, i: int, hi: int)
    requires
        0 <= i <= hi <= s.len(),
        forall|j: int| i <= j < hi ==> s[j] != '%',
    ensures
        spec_decode_path_from(s, i, hi) == Option::Some(s.subrange(i, hi)),
    decreases hi - i,
{
    if i >= hi {
        assert(s.subrange(i, hi) =~= Seq::<char>::empty());
    } else {
        lemma_decode_path_plain_from(s, i + 1, hi);
        assert(s.subrange(i, hi) =~= seq![s[i]] + s.subrange(i + 1, hi));
    }
}

/// A segment without percent escapes decodes to itself.
pub proof fn lemma_decode_path_plain(s: Seq<char>)
    requires
        forall|j: int| 0 <= j < s.len() ==> s[j] != '%',
    ensures
        spec_decode_path(s) == Option::Some(s),
{
    lemma_decode_path_plain_from(s, 0, s.len() as int);
    assert(s.subrange(0, s.len() as int) =~= s);
}

/// The decimal reading of `s` from position `i` with the digits read so far
/// in `acc`; a non-digit or a value past `u32::MAX` fails.
pub open spec fn spec_parse_u32_from(s: Seq<char>, i: int, acc: u32) -> Option<u32>
    decreases s.len() - i,
{
    if i >= s.len() {
        Option::Some(acc)
    } else {
        let u = s[i] as u32;
        if 48 <= u <= 57 {
            let d = (u - 48) as u32;
            if acc > (0xffff_ffff - d) / 10 {
                Option::None
            } else {
                spec_parse_u32_from(s, i + 1, (10 * acc + d) as u32)
            }
        } else {
            Option::None
        }
    }
}

/// The decimal reading of all of `s`; the empty string fails.
pub open spec fn spec_parse_u32(s: Seq<char>) -> Option<u32> {
    if s.len() == 0 {
        Option::None
    } else {
        spec_parse_u32_from(s, 0, 0)
    }
}

fn parse_u32_from(s: &str, i: usize, acc: u32) -> (r: Option<u32>)
    requires
        i <= s@.len(),
    ensures
        r == spec_parse_u32_from(s@, i as int, acc),
    decreases s@.len() - i,
{
    if i >= s.unicode_len() {
        return Some(acc);
    }
    let u: u32 = s.get_char(i) as u32;
    if 48 <= u && u <= 57 {
        let d: u32 = u - 48;
        if acc > (0xffff_ffff - d) / 10 {
            None
        } else {
            parse_u32_from(s, i + 1, 10 * acc + d)
        }
    } else {
        None
    }
}

/// Reads all of `s` as a decimal `u32`.
pub fn parse_u32(s: &str) -> (r: Option<u32>)
    ensures
        r == spec_parse_u32(s@),
{
    if s.unicode_len() == 0 {
        None
    } else {
        parse_u32_from(s, 0, 0)
    }
}

} // verus!

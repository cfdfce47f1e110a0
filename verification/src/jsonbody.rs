//! JSON body input.  The declared shapes read strings, unsigned numbers,
//! booleans and null out of an object's members; a member of any other
//! valid shape — an array, a nested object, a negative, fractional, huge
//! or exponent number — is preserved as its source text, and the catch-all
//! read accepts any valid JSON body.  Every executable function mirrors a
//! spec function, so what parses, and to what, is pinned for every input.

use vstd::prelude::*;
use crate::strutil::str_eq;
use crate::urlenc::{spec_parse_u32, parse_u32, spec_hex_val, hex_val};
use crate::extractor::InJson;

verus! {

/// One member value: the primitive shapes are read out, and any other
/// valid value — an array, a nested object, a negative, fractional, huge
/// or exponent number — is preserved as its source text.
pub enum JsonPrim {
    JNull,
    JBool(bool),
    JNum(u32),
    JStr(String),
    JRaw(String),
}

/// The mathematical value of a member value.
pub enum JsonPrimV {
    Null,
    Bool(bool),
    Num(u32),
    Str(Seq<char>),
    Raw(Seq<char>),
}

impl View for JsonPrim {
    type V = JsonPrimV;

    open spec fn view(&self) -> JsonPrimV {
        match self {
            JsonPrim::JNull => JsonPrimV::Null,
            JsonPrim::JBool(b) => JsonPrimV::Bool(*b),
            JsonPrim::JNum(n) => JsonPrimV::Num(*n),
            JsonPrim::JStr(s) => JsonPrimV::Str(s@),
            JsonPrim::JRaw(s) => JsonPrimV::Raw(s@),
        }
    }
}

/// A whole request body read as JSON: an object keeps its members; any
/// other value is kept whole.
pub enum JsonBody {
    Object(Vec<(String, JsonPrim)>),
    Value(JsonPrim),
}

/// The mathematical value of a whole body.
pub enum JsonBodyV {
    Object(Seq<(Seq<char>, JsonPrimV)>),
    Value(JsonPrimV),
}

impl View for JsonBody {
    type V = JsonBodyV;

    open spec fn view(&self) -> JsonBodyV {
        match self {
            JsonBody::Object(ps) => JsonBodyV::Object(pairs_view(ps@)),
            JsonBody::Value(v) => JsonBodyV::Value(v@),
        }
    }
}

/// The view of an owned member list.
pub open spec fn pairs_view(v: Seq<(String, JsonPrim)>) -> Seq<(Seq<char>, JsonPrimV)> {
    v.map_values(|p: (String, JsonPrim)| (p.0@, p.1@))
}

pub open spec fn is_ws(c: char) -> bool {
    c == ' ' || c == '\t' || c == '\n' || c == '\r'
}

pub open spec fn is_digit(c: char) -> bool {
    48 <= (c as u32) <= 57
}

/// The first position at or after `i` holding no whitespace.
pub open spec fn spec_skip_ws(s: Seq<char>, i: int) -> int
    decreases s.len() - i,
{
    if i >= s.len() {
        i
    } else if is_ws(s[i]) {
        spec_skip_ws(s, i + 1)
    } else {
        i
    }
}

pub proof fn lemma_skip_ws(s: Seq<char>, i: int)
    requires
        0 <= i <= s.len(),
    ensures
        i <= spec_skip_ws(s, i) <= s.len(),
    decreases s.len() - i,
{
    if i < s.len() && is_ws(s[i]) {
        lemma_skip_ws(s, i + 1);
    }
}

fn skip_ws(s: &str, i: usize) -> (r: usize)
    requires
        i <= s@.len(),
    ensures
        r == spec_skip_ws(s@, i as int),
        i <= r <= s@.len(),
    decreases s@.len() - i,
{
    if i >= s.unicode_len() {
        return i;
    }
    let c = s.get_char(i);
    if c == ' ' || c == '\t' || c == '\n' || c == '\r' {
        skip_ws(s, i + 1)
    } else {
        i
    }
}

/// The end of the digit run starting at `i`.
pub open spec fn digits_end(s: Seq<char>, i: int) -> int
    decreases s.len() - i,
{
    if i >= s.len() {
        i
    } else if is_digit(s[i]) {
        digits_end(s, i + 1)
    } else {
        i
    }
}

pub proof fn lemma_digits_end(s: Seq<char>, i: int)
    requires
        0 <= i <= s.len(),
    ensures
        i <= digits_end(s, i) <= s.len(),
    decreases s.len() - i,
{
    if i < s.len() && is_digit(s[i]) {
        lemma_digits_end(s, i + 1);
    }
}

fn digits_end_at(s: &str, i: usize) -> (r: usize)
    requires
        i <= s@.len(),
    ensures
        r == digits_end(s@, i as int),
        i <= r <= s@.len(),
    decreases s@.len() - i,
{
    if i >= s.unicode_len() {
        return i;
    }
    let u: u32 = s.get_char(i) as u32;
    if 48 <= u && u <= 57 {
        digits_end_at(s, i + 1)
    } else {
        i
    }
}

/// The end of the fraction part standing at `ie`, if any.
pub open spec fn spec_frac_end(s: Seq<char>, ie: int) -> Option<int> {
    if ie < s.len() && s[ie] == '.' {
        if ie + 1 < s.len() && is_digit(s[ie + 1]) {
            Option::Some(digits_end(s, ie + 1))
        } else {
            Option::None
        }
    } else {
        Option::Some(ie)
    }
}

/// The end of the exponent part standing at `fe`, if any.
pub open spec fn spec_exp_end(s: Seq<char>, fe: int) -> Option<int> {
    if fe < s.len() && (s[fe] == 'e' || s[fe] == 'E') {
        let g = if fe + 1 < s.len() && (s[fe + 1] == '+' || s[fe + 1] == '-') {
            fe + 2
        } else {
            fe + 1
        };
        if g < s.len() && is_digit(s[g]) {
            Option::Some(digits_end(s, g))
        } else {
            Option::None
        }
    } else {
        Option::Some(fe)
    }
}

/// The end of the number standing at `i`: an optional minus, an integer
/// part without a leading zero, an optional fraction and an optional
/// exponent.
pub open spec fn spec_skip_number(s: Seq<char>, i: int) -> Option<int> {
    let j = if i < s.len() && s[i] == '-' {
        i + 1
    } else {
        i
    };
    if j < s.len() && is_digit(s[j]) {
        let ie = if s[j] == '0' {
            j + 1
        } else {
            digits_end(s, j)
        };
        match spec_frac_end(s, ie) {
            Option::Some(fe) => spec_exp_end(s, fe),
            Option::None => Option::None,
        }
    } else {
        Option::None
    }
}

pub proof fn lemma_skip_number(s: Seq<char>, i: int)
    requires
        0 <= i <= s.len(),
    ensures
        spec_skip_number(s, i) matches Option::Some(e) ==> i < e <= s.len(),
{
    let j = if i < s.len() && s[i] == '-' {
        i + 1
    } else {
        i
    };
    if j < s.len() && is_digit(s[j]) {
        let ie = if s[j] == '0' {
            j + 1
        } else {
            digits_end(s, j)
        };
        if s[j] != '0' {
            assert(digits_end(s, j) == digits_end(s, j + 1));
            lemma_digits_end(s, j + 1);
        }
        if ie < s.len() && s[ie] == '.' && ie + 1 < s.len() && is_digit(s[ie + 1]) {
            lemma_digits_end(s, ie + 1);
        }
        match spec_frac_end(s, ie) {
            Option::Some(fe) => {
                if fe < s.len() && (s[fe] == 'e' || s[fe] == 'E') {
                    let g = if fe + 1 < s.len() && (s[fe + 1] == '+' || s[fe + 1] == '-') {
                        fe + 2
                    } else {
                        fe + 1
                    };
                    if g < s.len() && is_digit(s[g]) {
                        lemma_digits_end(s, g);
                    }
                }
            },
            Option::None => {},
        }
    }
}

fn skip_number_at(s: &str, i: usize) -> (r: Option<usize>)
    requires
        i <= s@.len(),
    ensures
        match r {
            Option::Some(e) => spec_skip_number(s@, i as int) == Option::Some(e as int) && i < e
                <= s@.len(),
            Option::None => spec_skip_number(s@, i as int) is None,
        },
{
    proof {
        lemma_skip_number(s@, i as int);
    }
    let n = s.unicode_len();
    let j = if i < n && s.get_char(i) == '-' {
        i + 1
    } else {
        i
    };
    if !(j < n && is_digit_at(s, j)) {
        return None;
    }
    let ie = if s.get_char(j) == '0' {
        j + 1
    } else {
        digits_end_at(s, j)
    };
    let fe = if ie < n && s.get_char(ie) == '.' {
        if ie + 1 < n && is_digit_at(s, ie + 1) {
            digits_end_at(s, ie + 1)
        } else {
            return None;
        }
    } else {
        ie
    };
    if fe < n && (s.get_char(fe) == 'e' || s.get_char(fe) == 'E') {
        let g = if fe + 1 < n && (s.get_char(fe + 1) == '+' || s.get_char(fe + 1) == '-') {
            fe + 2
        } else {
            fe + 1
        };
        if g < n && is_digit_at(s, g) {
            Some(digits_end_at(s, g))
        } else {
            None
        }
    } else {
        Some(fe)
    }
}

fn is_digit_at(s: &str, i: usize) -> (r: bool)
    requires
        i < s@.len(),
    ensures
        r == is_digit(s@[i as int]),
{
    let u: u32 = s.get_char(i) as u32;
    48 <= u && u <= 57
}

/// The end of the whole value standing at `i`, whatever its shape; only
/// the structure is checked here.
pub open spec fn spec_skip_value(s: Seq<char>, i: int) -> Option<int>
    decreases s.len() - i, 0int,
    when 0 <= i <= s.len()
{
    if i >= s.len() {
        Option::None
    } else if s[i] == '"' {
        match spec_str_body(s, i + 1) {
            Option::Some((t, e)) => Option::Some(e),
            Option::None => Option::None,
        }
    } else if s[i] == '-' || is_digit(s[i]) {
        spec_skip_number(s, i)
    } else if s[i] == '[' {
        spec_skip_arr(s, i + 1, true)
    } else if s[i] == '{' {
        spec_skip_obj(s, i + 1, true)
    } else if i + 4 <= s.len() && s.subrange(i, i + 4) == "true"@ {
        Option::Some(i + 4)
    } else if i + 5 <= s.len() && s.subrange(i, i + 5) == "false"@ {
        Option::Some(i + 5)
    } else if i + 4 <= s.len() && s.subrange(i, i + 4) == "null"@ {
        Option::Some(i + 4)
    } else {
        Option::None
    }
}

/// The end of the rest of an array from `j`, which stands just after the
/// opening bracket or after a comma.
pub open spec fn spec_skip_arr(s: Seq<char>, j: int, first: bool) -> Option<int>
    decreases s.len() - j, 1int,
    when 0 <= j <= s.len()
{
    proof {
        lemma_skip_ws(s, j);
    }
    let j2 = spec_skip_ws(s, j);
    if first && j2 < s.len() && s[j2] == ']' {
        Option::Some(j2 + 1)
    } else {
        match spec_skip_value(s, j2) {
            Option::Some(e) => {
                let e2 = if j2 < e && e <= s.len() {
                    e
                } else if j2 < s.len() {
                    j2 + 1
                } else {
                    j2
                };
                proof {
                    lemma_skip_ws(s, e2);
                }
                let e3 = spec_skip_ws(s, e2);
                if e3 < s.len() && s[e3] == ',' {
                    spec_skip_arr(s, e3 + 1, false)
                } else if e3 < s.len() && s[e3] == ']' {
                    Option::Some(e3 + 1)
                } else {
                    Option::None
                }
            },
            Option::None => Option::None,
        }
    }
}

/// The end of the rest of an object from `j`, which stands just after the
/// opening brace or after a comma.
pub open spec fn spec_skip_obj(s: Seq<char>, j: int, first: bool) -> Option<int>
    decreases s.len() - j, 1int,
    when 0 <= j <= s.len()
{
    proof {
        lemma_skip_ws(s, j);
    }
    let j2 = spec_skip_ws(s, j);
    if first && j2 < s.len() && s[j2] == '}' {
        Option::Some(j2 + 1)
    } else if j2 < s.len() && s[j2] == '"' {
        proof {
            lemma_str_body(s, j2 + 1);
        }
        match spec_str_body(s, j2 + 1) {
            Option::Some((k, ke)) => {
                proof {
                    lemma_skip_ws(s, ke);
                }
                let j3 = spec_skip_ws(s, ke);
                if j3 < s.len() && s[j3] == ':' {
                    proof {
                        lemma_skip_ws(s, j3 + 1);
                    }
                    let j4 = spec_skip_ws(s, j3 + 1);
                    match spec_skip_value(s, j4) {
                        Option::Some(e) => {
                            let e2 = if j4 < e && e <= s.len() {
                                e
                            } else if j4 < s.len() {
                                j4 + 1
                            } else {
                                j4
                            };
                            proof {
                                lemma_skip_ws(s, e2);
                            }
                            let e3 = spec_skip_ws(s, e2);
                            if e3 < s.len() && s[e3] == ',' {
                                spec_skip_obj(s, e3 + 1, false)
                            } else if e3 < s.len() && s[e3] == '}' {
                                Option::Some(e3 + 1)
                            } else {
                                Option::None
                            }
                        },
                        Option::None => Option::None,
                    }
                } else {
                    Option::None
                }
            },
            Option::None => Option::None,
        }
    } else {
        Option::None
    }
}

pub proof fn lemma_skip_value(s: Seq<char>, i: int)
    requires
        0 <= i <= s.len(),
    ensures
        spec_skip_value(s, i) matches Option::Some(e) ==> i < e <= s.len(),
    decreases s.len() - i, 0int,
{
    if i < s.len() {
        if s[i] == '"' {
            lemma_str_body(s, i + 1);
        } else if s[i] == '-' || is_digit(s[i]) {
            lemma_skip_number(s, i);
        } else if s[i] == '[' {
            lemma_skip_arr(s, i + 1, true);
        } else if s[i] == '{' {
            lemma_skip_obj(s, i + 1, true);
        }
    }
}

pub proof fn lemma_skip_arr(s: Seq<char>, j: int, first: bool)
    requires
        0 <= j <= s.len(),
    ensures
        spec_skip_arr(s, j, first) matches Option::Some(e) ==> j < e <= s.len(),
    decreases s.len() - j, 1int,
{
    lemma_skip_ws(s, j);
    let j2 = spec_skip_ws(s, j);
    if !(first && j2 < s.len() && s[j2] == ']') {
        lemma_skip_value(s, j2);
        match spec_skip_value(s, j2) {
            Option::Some(e) => {
                let e2 = if j2 < e && e <= s.len() {
                    e
                } else if j2 < s.len() {
                    j2 + 1
                } else {
                    j2
                };
                lemma_skip_ws(s, e2);
                let e3 = spec_skip_ws(s, e2);
                if e3 < s.len() && s[e3] == ',' {
                    lemma_skip_arr(s, e3 + 1, false);
                }
            },
            Option::None => {},
        }
    }
}

pub proof fn lemma_skip_obj(s: Seq<char>, j: int, first: bool)
    requires
        0 <= j <= s.len(),
    ensures
        spec_skip_obj(s, j, first) matches Option::Some(e) ==> j < e <= s.len(),
    decreases s.len() - j, 1int,
{
    lemma_skip_ws(s, j);
    let j2 = spec_skip_ws(s, j);
    if !(first && j2 < s.len() && s[j2] == '}') && j2 < s.len() && s[j2] == '"' {
        lemma_str_body(s, j2 + 1);
        match spec_str_body(s, j2 + 1) {
            Option::Some((k, ke)) => {
                lemma_skip_ws(s, ke);
                let j3 = spec_skip_ws(s, ke);
                if j3 < s.len() && s[j3] == ':' {
                    lemma_skip_ws(s, j3 + 1);
                    let j4 = spec_skip_ws(s, j3 + 1);
                    lemma_skip_value(s, j4);
                    match spec_skip_value(s, j4) {
                        Option::Some(e) => {
                            let e2 = if j4 < e && e <= s.len() {
                                e
                            } else if j4 < s.len() {
                                j4 + 1
                            } else {
                                j4
                            };
                            lemma_skip_ws(s, e2);
                            let e3 = spec_skip_ws(s, e2);
                            if e3 < s.len() && s[e3] == ',' {
                                lemma_skip_obj(s, e3 + 1, false);
                            }
                        },
                        Option::None => {},
                    }
                }
            },
            Option::None => {},
        }
    }
}

fn skip_value_at(s: &str, i: usize) -> (r: Option<usize>)
    requires
        i <= s@.len(),
    ensures
        match r {
            Option::Some(e) => spec_skip_value(s@, i as int) == Option::Some(e as int) && i < e
                <= s@.len(),
            Option::None => spec_skip_value(s@, i as int) is None,
        },
    decreases s@.len() - i, 0int,
{
    proof {
        lemma_skip_value(s@, i as int);
    }
    let n = s.unicode_len();
    if i >= n {
        return None;
    }
    let c = s.get_char(i);
    if c == '"' {
        match str_body(s, i + 1) {
            Some((_, e)) => Some(e),
            None => None,
        }
    } else if c == '-' || ((c as u32) >= 48 && (c as u32) <= 57) {
        skip_number_at(s, i)
    } else if c == '[' {
        skip_arr_at(s, i + 1, true)
    } else if c == '{' {
        skip_obj_at(s, i + 1, true)
    } else if n - i >= 4 && str_eq(s.substring_char(i, i + 4), "true") {
        Some(i + 4)
    } else if n - i >= 5 && str_eq(s.substring_char(i, i + 5), "false") {
        Some(i + 5)
    } else if n - i >= 4 && str_eq(s.substring_char(i, i + 4), "null") {
        Some(i + 4)
    } else {
        None
    }
}

fn skip_arr_at(s: &str, j: usize, first: bool) -> (r: Option<usize>)
    requires
        j <= s@.len(),
    ensures
        match r {
            Option::Some(e) => spec_skip_arr(s@, j as int, first) == Option::Some(e as int) && j
                < e <= s@.len(),
            Option::None => spec_skip_arr(s@, j as int, first) is None,
        },
    decreases s@.len() - j, 1int,
{
    proof {
        lemma_skip_arr(s@, j as int, first);
    }
    let n = s.unicode_len();
    let j2 = skip_ws(s, j);
    if first && j2 < n && s.get_char(j2) == ']' {
        return Some(j2 + 1);
    }
    match skip_value_at(s, j2) {
        Some(e) => {
            let e3 = skip_ws(s, e);
            if e3 < n && s.get_char(e3) == ',' {
                skip_arr_at(s, e3 + 1, false)
            } else if e3 < n && s.get_char(e3) == ']' {
                Some(e3 + 1)
            } else {
                None
            }
        },
        None => None,
    }
}

fn skip_obj_at(s: &str, j: usize, first: bool) -> (r: Option<usize>)
    requires
        j <= s@.len(),
    ensures
        match r {
            Option::Some(e) => spec_skip_obj(s@, j as int, first) == Option::Some(e as int) && j
                < e <= s@.len(),
            Option::None => spec_skip_obj(s@, j as int, first) is None,
        },
    decreases s@.len() - j, 1int,
{
    proof {
        lemma_skip_obj(s@, j as int, first);
    }
    let n = s.unicode_len();
    let j2 = skip_ws(s, j);
    if first && j2 < n && s.get_char(j2) == '}' {
        return Some(j2 + 1);
    }
    if !(j2 < n && s.get_char(j2) == '"') {
        return None;
    }
    match str_body(s, j2 + 1) {
        Some((_, ke)) => {
            proof {
                lemma_str_body(s@, j2 + 1);
            }
            let j3 = skip_ws(s, ke);
            if !(j3 < n && s.get_char(j3) == ':') {
                return None;
            }
            let j4 = skip_ws(s, j3 + 1);
            match skip_value_at(s, j4) {
                Some(e) => {
                    let e3 = skip_ws(s, e);
                    if e3 < n && s.get_char(e3) == ',' {
                        skip_obj_at(s, e3 + 1, false)
                    } else if e3 < n && s.get_char(e3) == '}' {
                        Some(e3 + 1)
                    } else {
                        None
                    }
                },
                None => None,
            }
        },
        None => None,
    }
}

/// What one escape introducer stands for, or nothing for a bad escape.
pub open spec fn spec_esc(c: char) -> Option<char> {
    if c == '"' {
        Option::Some('"')
    } else if c == '\\' {
        Option::Some('\\')
    } else if c == '/' {
        Option::Some('/')
    } else if c == 'n' {
        Option::Some('\n')
    } else if c == 't' {
        Option::Some('\t')
    } else if c == 'r' {
        Option::Some('\r')
    } else if c == 'b' {
        Option::Some((8 as u8) as char)
    } else if c == 'f' {
        Option::Some((12 as u8) as char)
    } else {
        Option::None
    }
}

fn esc(c: char) -> (r: Option<char>)
    ensures
        r == spec_esc(c),
{
    if c == '"' {
        Some('"')
    } else if c == '\\' {
        Some('\\')
    } else if c == '/' {
        Some('/')
    } else if c == 'n' {
        Some('\n')
    } else if c == 't' {
        Some('\t')
    } else if c == 'r' {
        Some('\r')
    } else if c == 'b' {
        Some((8 as u8) as char)
    } else if c == 'f' {
        Some((12 as u8) as char)
    } else {
        None
    }
}

/// Puts `c` in front of the string of a read that may have failed.
pub open spec fn cons_res(c: char, r: Option<(Seq<char>, int)>) -> Option<(Seq<char>, int)> {
    match r {
        Option::Some((t, e)) => Option::Some((seq![c] + t, e)),
        Option::None => Option::None,
    }
}

/// The value of the four hexadecimal digits standing at `i`.
pub open spec fn spec_hex4(s: Seq<char>, i: int) -> Option<u32> {
    if i + 4 <= s.len() {
        match (
            spec_hex_val(s[i]),
            spec_hex_val(s[i + 1]),
            spec_hex_val(s[i + 2]),
            spec_hex_val(s[i + 3]),
        ) {
            (Option::Some(a), Option::Some(b), Option::Some(c), Option::Some(d)) => Option::Some(
                (4096 * a + 256 * b + 16 * c + d) as u32,
            ),
            _ => Option::None,
        }
    } else {
        Option::None
    }
}

fn hex4_at(s: &str, i: usize) -> (r: Option<u32>)
    requires
        i <= s@.len(),
    ensures
        r == spec_hex4(s@, i as int),
{
    let n = s.unicode_len();
    if n - i >= 4 {
        let a = hex_val(s.get_char(i));
        let b = hex_val(s.get_char(i + 1));
        let c = hex_val(s.get_char(i + 2));
        let d = hex_val(s.get_char(i + 3));
        match (a, b, c, d) {
            (Some(x), Some(y), Some(z), Some(w)) => Some(4096 * x + 256 * y + 16 * z + w),
            _ => None,
        }
    } else {
        None
    }
}

/// Reads the rest of a string literal from just after its opening quote:
/// the characters up to the closing quote, with the short escapes and
/// `\uXXXX` escapes resolved, surrogate pairs included; an unterminated
/// literal, a bad escape, a lone surrogate or a raw control character
/// fails.  Returns the characters and the position after the closing
/// quote.
pub open spec fn spec_str_body(s: Seq<char>, i: int) -> Option<(Seq<char>, int)>
    decreases s.len() - i,
{
    if i >= s.len() {
        Option::None
    } else if s[i] == '"' {
        Option::Some((Seq::empty(), i + 1))
    } else if s[i] == '\\' {
        if i + 2 <= s.len() {
            if s[i + 1] == 'u' {
                match spec_hex4(s, i + 2) {
                    Option::Some(v) => if v < 0xD800 || v > 0xDFFF {
                        cons_res((v as char), spec_str_body(s, i + 6))
                    } else if v <= 0xDBFF {
                        if i + 12 <= s.len() && s[i + 6] == '\\' && s[i + 7] == 'u' {
                            match spec_hex4(s, i + 8) {
                                Option::Some(w) => if 0xDC00 <= w <= 0xDFFF {
                                    cons_res(
                                        (((0x10000 + (v - 0xD800) * 0x400 + (w - 0xDC00))
                                            as u32) as char),
                                        spec_str_body(s, i + 12),
                                    )
                                } else {
                                    Option::None
                                },
                                Option::None => Option::None,
                            }
                        } else {
                            Option::None
                        }
                    } else {
                        Option::None
                    },
                    Option::None => Option::None,
                }
            } else {
                match spec_esc(s[i + 1]) {
                    Option::Some(c) => cons_res(c, spec_str_body(s, i + 2)),
                    Option::None => Option::None,
                }
            }
        } else {
            Option::None
        }
    } else if (s[i] as u32) < 32 {
        Option::None
    } else {
        cons_res(s[i], spec_str_body(s, i + 1))
    }
}

pub proof fn lemma_str_body(s: Seq<char>, i: int)
    requires
        0 <= i <= s.len(),
    ensures
        spec_str_body(s, i) matches Option::Some(p) ==> i < p.1 <= s.len(),
    decreases s.len() - i,
{
    if i < s.len() {
        if s[i] == '\\' {
            if i + 2 <= s.len() {
                if i + 6 <= s.len() {
                    lemma_str_body(s, i + 6);
                }
                if i + 12 <= s.len() {
                    lemma_str_body(s, i + 12);
                }
                lemma_str_body(s, i + 2);
            }
        } else if s[i] != '"' {
            lemma_str_body(s, i + 1);
        }
    }
}

/// Builds the string `c` followed by `rest`.
fn cons_front(c: char, rest: String) -> (r: String)
    ensures
        r@ == seq![c] + rest@,
{
    let mut t = String::new();
    crate::strutil::push_char(&mut t, c);
    t.append(rest.as_str());
    proof {
        assert(t@ =~= seq![c] + rest@);
    }
    t
}

fn str_body(s: &str, i: usize) -> (r: Option<(String, usize)>)
    requires
        i <= s@.len(),
    ensures
        match r {
            Option::Some(p) => spec_str_body(s@, i as int) == Option::Some((p.0@, p.1 as int))
                && p.1 <= s@.len(),
            Option::None => spec_str_body(s@, i as int) is None,
        },
    decreases s@.len() - i,
{
    proof {
        lemma_str_body(s@, i as int);
    }
    if i >= s.unicode_len() {
        return None;
    }
    let c = s.get_char(i);
    if c == '"' {
        Some((String::new(), i + 1))
    } else if c == '\\' {
        let n = s.unicode_len();
        if n - i >= 2 {
            if s.get_char(i + 1) == 'u' {
                match hex4_at(s, i + 2) {
                    Some(v) => {
                        if v < 0xD800 || v > 0xDFFF {
                            let d = crate::strutil::char_from_scalar(v);
                            match str_body(s, i + 6) {
                                Some((t, e)) => Some((cons_front(d, t), e)),
                                None => None,
                            }
                        } else if v <= 0xDBFF {
                            if n - i >= 12 && s.get_char(i + 6) == '\\' && s.get_char(i + 7)
                                == 'u' {
                                match hex4_at(s, i + 8) {
                                    Some(w) => {
                                        if 0xDC00 <= w && w <= 0xDFFF {
                                            let code: u32 = 0x10000 + (v - 0xD800) * 0x400 + (w
                                                - 0xDC00);
                                            let d = crate::strutil::char_from_scalar(code);
                                            match str_body(s, i + 12) {
                                                Some((t, e)) => Some((cons_front(d, t), e)),
                                                None => None,
                                            }
                                        } else {
                                            None
                                        }
                                    },
                                    None => None,
                                }
                            } else {
                                None
                            }
                        } else {
                            None
                        }
                    },
                    None => None,
                }
            } else {
                match esc(s.get_char(i + 1)) {
                    Some(d) => match str_body(s, i + 2) {
                        Some((t, e)) => Some((cons_front(d, t), e)),
                        None => None,
                    },
                    None => None,
                }
            }
        } else {
            None
        }
    } else if (c as u32) < 32 {
        None
    } else {
        match str_body(s, i + 1) {
            Some((t, e)) => Some((cons_front(c, t), e)),
            None => None,
        }
    }
}

/// Reads a whole string literal standing at `i`.
pub open spec fn spec_string_at(s: Seq<char>, i: int) -> Option<(Seq<char>, int)> {
    if 0 <= i < s.len() && s[i] == '"' {
        spec_str_body(s, i + 1)
    } else {
        Option::None
    }
}

fn string_at(s: &str, i: usize) -> (r: Option<(String, usize)>)
    requires
        i <= s@.len(),
    ensures
        match r {
            Option::Some(p) => spec_string_at(s@, i as int) == Option::Some((p.0@, p.1 as int))
                && i < p.1 <= s@.len(),
            Option::None => spec_string_at(s@, i as int) is None,
        },
{
    if i < s.unicode_len() && s.get_char(i) == '"' {
        proof {
            lemma_str_body(s@, i + 1);
        }
        str_body(s, i + 1)
    } else {
        None
    }
}

/// Reads one value standing at `i`.  A string literal, a number that is a
/// plain unsigned integer fitting `u32`, `true`, `false` and `null` are
/// read out; any other valid value — an array, an object, or a negative,
/// fractional, exponent or oversized number — is kept as its source text.
pub open spec fn spec_value_at(s: Seq<char>, i: int) -> Option<(JsonPrimV, int)> {
    if i < 0 || i >= s.len() {
        Option::None
    } else if s[i] == '"' {
        match spec_str_body(s, i + 1) {
            Option::Some((t, e)) => Option::Some((JsonPrimV::Str(t), e)),
            Option::None => Option::None,
        }
    } else if s[i] == '-' || is_digit(s[i]) {
        match spec_skip_number(s, i) {
            Option::Some(e) => if s[i] != '-' && e == digits_end(s, i) {
                match spec_parse_u32(s.subrange(i, e)) {
                    Option::Some(n) => Option::Some((JsonPrimV::Num(n), e)),
                    Option::None => Option::Some((JsonPrimV::Raw(s.subrange(i, e)), e)),
                }
            } else {
                Option::Some((JsonPrimV::Raw(s.subrange(i, e)), e))
            },
            Option::None => Option::None,
        }
    } else if s[i] == '[' || s[i] == '{' {
        match spec_skip_value(s, i) {
            Option::Some(e) => Option::Some((JsonPrimV::Raw(s.subrange(i, e)), e)),
            Option::None => Option::None,
        }
    } else if i + 4 <= s.len() && s.subrange(i, i + 4) == "true"@ {
        Option::Some((JsonPrimV::Bool(true), i + 4))
    } else if i + 5 <= s.len() && s.subrange(i, i + 5) == "false"@ {
        Option::Some((JsonPrimV::Bool(false), i + 5))
    } else if i + 4 <= s.len() && s.subrange(i, i + 4) == "null"@ {
        Option::Some((JsonPrimV::Null, i + 4))
    } else {
        Option::None
    }
}

pub proof fn lemma_value_at(s: Seq<char>, i: int)
    requires
        0 <= i <= s.len(),
    ensures
        spec_value_at(s, i) matches Option::Some(p) ==> i < p.1 <= s.len(),
{
    if i < s.len() {
        if s[i] == '"' {
            lemma_str_body(s, i + 1);
        } else if s[i] == '-' || is_digit(s[i]) {
            lemma_skip_number(s, i);
        } else if s[i] == '[' || s[i] == '{' {
            lemma_skip_value(s, i);
        }
    }
}

fn value_at(s: &str, i: usize) -> (r: Option<(JsonPrim, usize)>)
    requires
        i <= s@.len(),
    ensures
        match r {
            Option::Some(p) => spec_value_at(s@, i as int) == Option::Some((p.0@, p.1 as int))
                && i < p.1 <= s@.len(),
            Option::None => spec_value_at(s@, i as int) is None,
        },
{
    proof {
        lemma_value_at(s@, i as int);
    }
    let n = s.unicode_len();
    if i >= n {
        return None;
    }
    let c = s.get_char(i);
    if c == '"' {
        match str_body(s, i + 1) {
            Some((t, e)) => Some((JsonPrim::JStr(t), e)),
            None => None,
        }
    } else if c == '-' || ((c as u32) >= 48 && (c as u32) <= 57) {
        match skip_number_at(s, i) {
            Some(e) => {
                if c != '-' && e == digits_end_at(s, i) {
                    match parse_u32(s.substring_char(i, e)) {
                        Some(num) => Some((JsonPrim::JNum(num), e)),
                        None => Some((JsonPrim::JRaw(s.substring_char(i, e).to_owned()), e)),
                    }
                } else {
                    Some((JsonPrim::JRaw(s.substring_char(i, e).to_owned()), e))
                }
            },
            None => None,
        }
    } else if c == '[' || c == '{' {
        match skip_value_at(s, i) {
            Some(e) => Some((JsonPrim::JRaw(s.substring_char(i, e).to_owned()), e)),
            None => None,
        }
    } else if n - i >= 4 && str_eq(s.substring_char(i, i + 4), "true") {
        Some((JsonPrim::JBool(true), i + 4))
    } else if n - i >= 5 && str_eq(s.substring_char(i, i + 5), "false") {
        Some((JsonPrim::JBool(false), i + 5))
    } else if n - i >= 4 && str_eq(s.substring_char(i, i + 4), "null") {
        Some((JsonPrim::JNull, i + 4))
    } else {
        None
    }
}

/// Reads members from `i`, which must stand at a key, with the members read
/// so far in `acc`; ends after the closing brace.
pub open spec fn spec_members(
    s: Seq<char>,
    i: int,
    acc: Seq<(Seq<char>, JsonPrimV)>,
) -> Option<(Seq<(Seq<char>, JsonPrimV)>, int)>
    decreases s.len() - i,
    when 0 <= i <= s.len()
{
    match spec_string_at(s, i) {
        Option::None => Option::None,
        Option::Some((k, i1)) => {
            proof {
                lemma_str_body(s, i + 1);
            }
            let i2 = spec_skip_ws(s, i1);
            proof {
                lemma_skip_ws(s, i1);
            }
            if i2 < s.len() && s[i2] == ':' {
                let i3 = spec_skip_ws(s, i2 + 1);
                proof {
                    lemma_skip_ws(s, i2 + 1);
                }
                match spec_value_at(s, i3) {
                    Option::None => Option::None,
                    Option::Some((v, i4)) => {
                        proof {
                            lemma_value_at(s, i3);
                        }
                        let acc2 = acc.push((k, v));
                        let i5 = spec_skip_ws(s, i4);
                        proof {
                            lemma_skip_ws(s, i4);
                        }
                        if i5 < s.len() && s[i5] == ',' {
                            let i6 = spec_skip_ws(s, i5 + 1);
                            proof {
                                lemma_skip_ws(s, i5 + 1);
                            }
                            spec_members(s, i6, acc2)
                        } else if i5 < s.len() && s[i5] == '}' {
                            Option::Some((acc2, i5 + 1))
                        } else {
                            Option::None
                        }
                    },
                }
            } else {
                Option::None
            }
        },
    }
}

fn members(s: &str, i: usize, acc: Vec<(String, JsonPrim)>) -> (r: Option<
    (Vec<(String, JsonPrim)>, usize),
>)
    requires
        i <= s@.len(),
    ensures
        match r {
            Option::Some(p) => spec_members(s@, i as int, pairs_view(acc@)) == Option::Some(
                (pairs_view(p.0@), p.1 as int),
            ) && p.1 <= s@.len(),
            Option::None => spec_members(s@, i as int, pairs_view(acc@)) is None,
        },
    decreases s@.len() - i,
{
    let (k, i1) = match string_at(s, i) {
        Some(p) => p,
        None => {
            return None;
        },
    };
    let i2 = skip_ws(s, i1);
    if !(i2 < s.unicode_len() && s.get_char(i2) == ':') {
        return None;
    }
    let i3 = skip_ws(s, i2 + 1);
    let (v, i4) = match value_at(s, i3) {
        Some(p) => p,
        None => {
            return None;
        },
    };
    let ghost kv = (k@, v@);
    let mut acc2 = acc;
    acc2.push((k, v));
    proof {
        assert(pairs_view(acc2@) =~= pairs_view(acc@).push(kv));
    }
    let i5 = skip_ws(s, i4);
    if i5 < s.unicode_len() && s.get_char(i5) == ',' {
        let i6 = skip_ws(s, i5 + 1);
        members(s, i6, acc2)
    } else if i5 < s.unicode_len() && s.get_char(i5) == '}' {
        Some((acc2, i5 + 1))
    } else {
        None
    }
}

/// Reads all of `s` as one object of primitive members, kept in order.
pub open spec fn spec_object(s: Seq<char>) -> Option<Seq<(Seq<char>, JsonPrimV)>> {
    let i0 = spec_skip_ws(s, 0);
    if 0 <= i0 < s.len() && s[i0] == '{' {
        let i1 = spec_skip_ws(s, i0 + 1);
        if i1 < s.len() && s[i1] == '}' {
            if spec_skip_ws(s, i1 + 1) == s.len() {
                Option::Some(Seq::empty())
            } else {
                Option::None
            }
        } else {
            match spec_members(s, i1, Seq::empty()) {
                Option::None => Option::None,
                Option::Some((ps, e)) => if spec_skip_ws(s, e) == s.len() {
                    Option::Some(ps)
                } else {
                    Option::None
                },
            }
        }
    } else {
        Option::None
    }
}

/// Reads all of `s` as one JSON value of any shape: an object keeps its
/// members, any other value is kept whole.
pub open spec fn spec_json_body(s: Seq<char>) -> Option<JsonBodyV> {
    let i0 = spec_skip_ws(s, 0);
    if 0 <= i0 < s.len() && s[i0] == '{' {
        match spec_object(s) {
            Option::Some(ps) => Option::Some(JsonBodyV::Object(ps)),
            Option::None => Option::None,
        }
    } else {
        match spec_value_at(s, i0) {
            Option::Some((v, e)) => if spec_skip_ws(s, e) == s.len() {
                Option::Some(JsonBodyV::Value(v))
            } else {
                Option::None
            },
            Option::None => Option::None,
        }
    }
}

/// The catch-all read: any valid JSON body, with an object's members kept
/// in order.
pub fn extract_json(s: &str) -> (r: Option<JsonBody>)
    ensures
        match r {
            Option::Some(b) => spec_json_body(s@) == Option::Some(b@),
            Option::None => spec_json_body(s@) is None,
        },
{
    let i0 = skip_ws(s, 0);
    if i0 < s.unicode_len() && s.get_char(i0) == '{' {
        match extract_object(s) {
            Some(ps) => Some(JsonBody::Object(ps)),
            None => None,
        }
    } else {
        proof {
            lemma_value_at(s@, i0 as int);
        }
        match value_at(s, i0) {
            Some((v, e)) => {
                if skip_ws(s, e) == s.unicode_len() {
                    Some(JsonBody::Value(v))
                } else {
                    None
                }
            },
            None => None,
        }
    }
}

/// Reads all of `s` as one object, every member kept in order.
pub fn extract_object(s: &str) -> (r: Option<Vec<(String, JsonPrim)>>)
    ensures
        match r {
            Option::Some(ps) => spec_object(s@) == Option::Some(pairs_view(ps@)),
            Option::None => spec_object(s@) is None,
        },
{
    let i0 = skip_ws(s, 0);
    if !(i0 < s.unicode_len() && s.get_char(i0) == '{') {
        return None;
    }
    let i1 = skip_ws(s, i0 + 1);
    if i1 < s.unicode_len() && s.get_char(i1) == '}' {
        if skip_ws(s, i1 + 1) == s.unicode_len() {
            proof {
                assert(pairs_view(Seq::<(String, JsonPrim)>::empty()) =~= Seq::<
                    (Seq<char>, JsonPrimV),
                >::empty());
            }
            Some(Vec::new())
        } else {
            None
        }
    } else {
        proof {
            assert(pairs_view(Seq::<(String, JsonPrim)>::empty()) =~= Seq::<
                (Seq<char>, JsonPrimV),
            >::empty());
        }
        match members(s, i1, Vec::new()) {
            Some((ps, e)) => {
                if skip_ws(s, e) == s.unicode_len() {
                    Some(ps)
                } else {
                    None
                }
            },
            None => None,
        }
    }
}

/// Picks the declared fields out of the member list: `name` must be a
/// string, `id` a number or an explicit null or absent; a repeated declared
/// key or a wrongly typed value is malformed, any other key is ignored.
pub open spec fn spec_pick(
    ps: Seq<(Seq<char>, JsonPrimV)>,
    i: int,
    name: Option<Seq<char>>,
    id: Option<Option<u32>>,
) -> Option<(Seq<char>, Option<u32>)>
    decreases ps.len() - i,
{
    if i < 0 || i >= ps.len() {
        match name {
            Option::Some(nm) => Option::Some(
                (nm, match id {
                    Option::Some(x) => x,
                    Option::None => Option::None,
                }),
            ),
            Option::None => Option::None,
        }
    } else {
        let k = ps[i].0;
        let v = ps[i].1;
        if k == "name"@ {
            if name is Some {
                Option::None
            } else {
                match v {
                    JsonPrimV::Str(t) => spec_pick(ps, i + 1, Option::Some(t), id),
                    _ => Option::None,
                }
            }
        } else if k == "id"@ {
            if id is Some {
                Option::None
            } else {
                match v {
                    JsonPrimV::Num(n) => spec_pick(ps, i + 1, name, Option::Some(Option::Some(n))),
                    JsonPrimV::Null => spec_pick(ps, i + 1, name, Option::Some(Option::None)),
                    _ => Option::None,
                }
            }
        } else {
            spec_pick(ps, i + 1, name, id)
        }
    }
}

fn pick(ps: &Vec<(String, JsonPrim)>, i: usize, name: Option<String>, id: Option<Option<u32>>) -> (r:
    Option<(String, Option<u32>)>)
    requires
        i <= ps@.len(),
    ensures
        match r {
            Option::Some(p) => spec_pick(pairs_view(ps@), i as int, crate::urlenc::opt_str_view(name), id)
                == Option::Some((p.0@, p.1)),
            Option::None => spec_pick(pairs_view(ps@), i as int, crate::urlenc::opt_str_view(name), id) is None,
        },
    decreases ps@.len() - i,
{
    if i >= ps.len() {
        return match name {
            Some(nm) => Some(
                (nm, match id {
                    Some(x) => x,
                    None => None,
                }),
            ),
            None => None,
        };
    }
    let p = &ps[i];
    if str_eq(p.0.as_str(), "name") {
        if name.is_some() {
            None
        } else {
            match &p.1 {
                JsonPrim::JStr(t) => pick(ps, i + 1, Some(t.clone()), id),
                _ => None,
            }
        }
    } else if str_eq(p.0.as_str(), "id") {
        if id.is_some() {
            None
        } else {
            match &p.1 {
                JsonPrim::JNum(n) => pick(ps, i + 1, name, Some(Some(*n))),
                JsonPrim::JNull => pick(ps, i + 1, name, Some(None)),
                _ => None,
            }
        }
    } else {
        pick(ps, i + 1, name, id)
    }
}

/// The typed reading of a whole JSON body into the declared record.
pub open spec fn spec_injson(s: Seq<char>) -> Option<(Seq<char>, Option<u32>)> {
    match spec_object(s) {
        Option::None => Option::None,
        Option::Some(ps) => spec_pick(ps, 0, Option::None, Option::None),
    }
}

/// Reads a JSON body into the typed record of the declared-shape endpoint.
pub fn extract_injson(s: &str) -> (r: Option<InJson>)
    ensures
        match r {
            Option::Some(q) => spec_injson(s@) == Option::Some((q.name@, q.id)),
            Option::None => spec_injson(s@) is None,
        },
{
    match extract_object(s) {
        Some(ps) => match pick(&ps, 0, None, None) {
            Some((nm, idv)) => Some(InJson { name: nm, id: idv }),
            None => None,
        },
        None => None,
    }
}

} // verus!

//! The extraction layer: converts raw query strings, form bodies and JSON
//! bodies into typed records, or fails.  Parsing is permissive: unknown
//! keys are ignored; a repeated declared key, a bad escape or a non-numeric
//! id is malformed.

use vstd::prelude::*;
use crate::urlenc::{
    find_from, lemma_find_from, find_from_at, spec_decode_seg, decode_seg, spec_parse_u32,
    parse_u32, opt_str_view,
};
use crate::json::{spec_qs_echo, render_qs_echo};
use crate::response::{Response, ok_json};
use crate::strutil::str_eq;

verus! {

/// The typed record of the query-string endpoint.
pub struct InQuery {
    pub name: String,
    pub id: u32,
}

/// The typed record of the JSON-body endpoint: the id may be absent or null.
pub struct InJson {
    pub name: String,
    pub id: Option<u32>,
}

/// The typed record of the form-body endpoint.
pub struct InForm {
    pub name: String,
    pub id: u32,
}

/// One step of reading `key=value` pairs from position `i`, with the
/// declared fields seen so far.  A pair whose key decodes to `name` or `id`
/// fills that field; filling a field twice, a failed decode or a failed
/// number reading is malformed; any other key is ignored.  At the end both
/// declared fields must be present.
pub open spec fn spec_pairs_from(
    s: Seq<char>,
    i: int,
    name: Option<Seq<char>>,
    id: Option<u32>,
) -> Option<(Seq<char>, u32)>
    decreases s.len() + 1 - i,
    when 0 <= i <= s.len()
{
    proof {
        lemma_find_from(s, i, '&');
    }
    let amp = find_from(s, i, '&');
    let e = find_from(s, i, '=');
    let khi = if e < amp { e } else { amp };
    let vlo = if e < amp { e + 1 } else { amp };
    match spec_decode_seg(s, i, khi) {
        Option::None => Option::None,
        Option::Some(k) => {
            let next = if k == "name"@ {
                match spec_decode_seg(s, vlo, amp) {
                    Option::None => Option::None,
                    Option::Some(v) => if name is Some {
                        Option::None
                    } else {
                        Option::Some((Option::Some(v), id))
                    },
                }
            } else if k == "id"@ {
                match spec_decode_seg(s, vlo, amp) {
                    Option::None => Option::None,
                    Option::Some(v) => match spec_parse_u32(v) {
                        Option::None => Option::None,
                        Option::Some(n) => if id is Some {
                            Option::None
                        } else {
                            Option::Some((name, Option::Some(n)))
                        },
                    },
                }
            } else {
                Option::Some((name, id))
            };
            match next {
                Option::None => Option::None,
                Option::Some((name2, id2)) => if amp == s.len() {
                    match (name2, id2) {
                        (Option::Some(nm), Option::Some(idv)) => Option::Some((nm, idv)),
                        _ => Option::None,
                    }
                } else {
                    spec_pairs_from(s, amp + 1, name2, id2)
                },
            }
        },
    }
}

/// The typed reading of a whole URL-encoded record.
pub open spec fn spec_record(s: Seq<char>) -> Option<(Seq<char>, u32)> {
    spec_pairs_from(s, 0, Option::None, Option::None)
}

fn pairs_from(s: &str, i: usize, name: Option<String>, id: Option<u32>) -> (r: Option<
    (String, u32),
>)
    requires
        i <= s@.len(),
    ensures
        match r {
            Option::Some(p) => spec_pairs_from(s@, i as int, opt_str_view(name), id)
                == Option::Some((p.0@, p.1)),
            Option::None => spec_pairs_from(s@, i as int, opt_str_view(name), id) is None,
        },
    decreases s@.len() - i,
{
    let n = s.unicode_len();
    let amp = find_from_at(s, i, '&');
    let e = find_from_at(s, i, '=');
    let khi = if e < amp {
        e
    } else {
        amp
    };
    let vlo = if e < amp {
        e + 1
    } else {
        amp
    };
    let k = match decode_seg(s, i, khi) {
        Some(k) => k,
        None => {
            return None;
        },
    };
    let next: Option<(Option<String>, Option<u32>)> = if str_eq(k.as_str(), "name") {
        match decode_seg(s, vlo, amp) {
            Some(v) => if name.is_some() {
                None
            } else {
                Some((Some(v), id))
            },
            None => None,
        }
    } else if str_eq(k.as_str(), "id") {
        match decode_seg(s, vlo, amp) {
            Some(v) => match parse_u32(v.as_str()) {
                Some(num) => if id.is_some() {
                    None
                } else {
                    Some((name, Some(num)))
                },
                None => None,
            },
            None => None,
        }
    } else {
        Some((name, id))
    };
    match next {
        None => None,
        Some((name2, id2)) => if amp == n {
            match (name2, id2) {
                (Some(nm), Some(idv)) => Some((nm, idv)),
                _ => None,
            }
        } else {
            pairs_from(s, amp + 1, name2, id2)
        },
    }
}

/// Reads a URL-encoded query string into the typed query record.
pub fn extract_query(s: &str) -> (r: Option<InQuery>)
    ensures
        match r {
            Option::Some(q) => spec_record(s@) == Option::Some((q.name@, q.id)),
            Option::None => spec_record(s@) is None,
        },
{
    match pairs_from(s, 0, None, None) {
        Some((nm, idv)) => Some(InQuery { name: nm, id: idv }),
        None => None,
    }
}

/// Reads a URL-encoded form body into the typed form record.
pub fn extract_form(s: &str) -> (r: Option<InForm>)
    ensures
        match r {
            Option::Some(q) => spec_record(s@) == Option::Some((q.name@, q.id)),
            Option::None => spec_record(s@) is None,
        },
{
    match pairs_from(s, 0, None, None) {
        Some((nm, idv)) => Some(InForm { name: nm, id: idv }),
        None => None,
    }
}

/// The query endpoint: echoes the typed record back inside a `qs` member.
pub fn in_query(qs: InQuery) -> (r: Response)
    ensures
        r@.status == 200,
        r@.content_type == "application/json"@,
        r@.body == spec_qs_echo(qs.name@, qs.id),
        !r@.chunked,
{
    ok_json(render_qs_echo(qs.name.as_str(), qs.id))
}

/// The JSON-body endpoint with a declared shape: whatever record came in,
/// the answer is the fixed object `{"name":"abc","id":32}`.
pub fn in_custom(data: InJson) -> (r: Response)
    ensures
        r@.status == 200,
        r@.content_type == "application/json"@,
        r@.body == "{\"name\":\"abc\",\"id\":32}"@,
        !r@.chunked,
{
    ok_json("{\"name\":\"abc\",\"id\":32}".to_owned())
}

/// The JSON-body endpoint with a catch-all value: whatever value came in,
/// the answer is the fixed object `{"name":"abc","id":32}`.
pub fn in_json(data: crate::jsonbody::JsonBody) -> (r: Response)
    ensures
        r@.status == 200,
        r@.content_type == "application/json"@,
        r@.body == "{\"name\":\"abc\",\"id\":32}"@,
        !r@.chunked,
{
    ok_json("{\"name\":\"abc\",\"id\":32}".to_owned())
}

/// The form-body endpoint: whatever record came in, the answer is the fixed
/// object `{"name":"abc","id":32}`.
pub fn in_form(data: InForm) -> (r: Response)
    ensures
        r@.status == 200,
        r@.content_type == "application/json"@,
        r@.body == "{\"name\":\"abc\",\"id\":32}"@,
        !r@.chunked,
{
    ok_json("{\"name\":\"abc\",\"id\":32}".to_owned())
}

} // verus!

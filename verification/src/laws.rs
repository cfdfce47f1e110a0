//! The stated laws of the pipeline, each proved from the public contracts:
//! the auth policy, the echo of the query endpoint, the status and body of
//! the error endpoints, the message of the custom-shape endpoint, the
//! determinism of the whole pipeline, and the fixed JSON endpoint.

use vstd::prelude::*;
use crate::json::{spec_envelope, spec_qs_echo, spec_custom_out};
use crate::middleware::{AuthV, spec_resolve, spec_auth_token};
use crate::pipeline::{ReqV, spec_handle, spec_run, spec_path_of, spec_query_of};
use crate::response::RespV;
use crate::router::{
    Method, HandlerId, split_segs, spec_dispatch, spec_dispatch_from,
    spec_route_table, route_matches, capture_of,
};
use crate::extractor::spec_record;
use crate::urlenc::find_from;

verus! {

/// A header equal to the fixed token resolves to the user `roger` carrying
/// that value; any other header, the empty one and the missing one resolve
/// to no user.
pub proof fn lemma_auth_policy(h: Option<Seq<char>>)
    ensures
        match h {
            Option::Some(t) => spec_resolve(h) == (if t == spec_auth_token() {
                AuthV::Present { name: "roger"@, token: t }
            } else {
                AuthV::Absent
            }),
            Option::None => spec_resolve(h) == AuthV::Absent,
        },
{
    reveal_strlit("abctoken");
}

/// `find_from` runs to the end when the character never occurs.
proof fn lemma_find_none(s: Seq<char>, i: int, c: char)
    requires
        0 <= i <= s.len(),
        forall|j: int| i <= j < s.len() ==> s[j] != c,
    ensures
        find_from(s, i, c) == s.len(),
    decreases s.len() - i,
{
    if i < s.len() {
        lemma_find_none(s, i + 1, c);
    }
}

/// `find_from` stops at the first occurrence.
proof fn lemma_find_hit(s: Seq<char>, i: int, c: char, k: int)
    requires
        0 <= i <= k < s.len(),
        s[k] == c,
        forall|j: int| i <= j < k ==> s[j] != c,
    ensures
        find_from(s, i, c) == k,
    decreases s.len() - i,
{
    if i < k {
        lemma_find_hit(s, i + 1, c, k);
    }
}

/// A target without a query separator is all path and no query.
proof fn lemma_path_pieces(t: Seq<char>)
    requires
        forall|j: int| 0 <= j < t.len() ==> t[j] != '?',
    ensures
        spec_query_of(t) == Seq::<char>::empty(),
        spec_path_of(t) == t,
{
    lemma_find_none(t, 0, '?');
    assert(t.subrange(0, t.len() as int) =~= t);
}

proof fn lemma_dispatch_from_hit(
    m: Method,
    segs: Seq<Seq<char>>,
    i: int,
    hit: int,
    cap: Option<Seq<char>>,
)
    requires
        0 <= i <= hit < spec_route_table().len(),
        route_matches(spec_route_table()[hit], m, segs),
        capture_of(spec_route_table()[hit], segs) == cap,
        forall|j: int| i <= j < hit ==> !route_matches(spec_route_table()[j], m, segs),
    ensures
        spec_dispatch_from(spec_route_table(), i, m, segs) == Option::Some(
            (spec_route_table()[hit].handler, cap),
        ),
    decreases hit - i,
{
    if i < hit {
        lemma_dispatch_from_hit(m, segs, i + 1, hit, cap);
    }
}

/// Looks the given segments up in the route table: the first matching route
/// decides, with the given capture.
proof fn lemma_dispatch_hit(m: Method, segs: Seq<Seq<char>>, hit: int, cap: Option<Seq<char>>)
    requires
        0 <= hit < spec_route_table().len(),
        route_matches(spec_route_table()[hit], m, segs),
        capture_of(spec_route_table()[hit], segs) == cap,
        forall|j: int| 0 <= j < hit ==> !route_matches(spec_route_table()[j], m, segs),
    ensures
        spec_dispatch(spec_route_table(), m, segs) == Option::Some(
            (spec_route_table()[hit].handler, cap),
        ),
{
    lemma_dispatch_from_hit(m, segs, 0, hit, cap);
}

/// For all valid query inputs, the query endpoint echoes the parsed name
/// and id back inside a `qs` member, unchanged.
pub proof fn lemma_in_query_echo(rv: ReqV, name: Seq<char>, id: u32)
    requires
        rv.method == Method::Get,
        spec_path_of(rv.target) == "/in/qs"@,
        spec_record(spec_query_of(rv.target)) == Option::Some((name, id)),
    ensures
        spec_handle(rv) == (RespV {
            status: 200,
            content_type: "application/json"@,
            body: spec_qs_echo(name, id),
            chunked: false,
        }),
{
    let p = "/in/qs"@;
    reveal_strlit("/in/qs");
    reveal_strlit("in");
    reveal_strlit("qs");
    reveal_strlit("out");
    reveal_strlit("json");
    reveal_strlit("custom");
    reveal_strlit("text");
    reveal_strlit("stream");
    lemma_find_hit(p, 1, '/', 3);
    lemma_find_none(p, 4, '/');
    reveal_with_fuel(split_segs, 3);
    assert(p.subrange(1, 3) =~= "in"@);
    assert(p.subrange(4, 6) =~= "qs"@);
    let segs = seq!["in"@, "qs"@];
    assert(split_segs(p, 1) =~= segs);
    assert(!route_matches(spec_route_table()[0], Method::Get, segs));
    assert(!route_matches(spec_route_table()[1], Method::Get, segs));
    assert(!route_matches(spec_route_table()[2], Method::Get, segs));
    assert(!route_matches(spec_route_table()[3], Method::Get, segs));
    lemma_dispatch_hit(Method::Get, segs, 4, Option::None);
}

/// The default-error endpoint always answers 500 with the uniform envelope
/// for `default error`.
pub proof fn lemma_err_default_always(rv: ReqV)
    requires
        rv.method == Method::Get,
        rv.target == "/err/default"@,
    ensures
        spec_handle(rv).status == 500,
        spec_handle(rv).body == spec_envelope("default error"@),
{
    let p = "/err/default"@;
    reveal_strlit("/err/default");
    reveal_strlit("err");
    reveal_strlit("default");
    reveal_strlit("out");
    reveal_strlit("json");
    reveal_strlit("custom");
    reveal_strlit("text");
    reveal_strlit("stream");
    reveal_strlit("in");
    reveal_strlit("qs");
    assert(forall|j: int| 0 <= j < p.len() ==> p[j] != '?');
    lemma_path_pieces(p);
    lemma_find_hit(p, 1, '/', 4);
    lemma_find_none(p, 5, '/');
    reveal_with_fuel(split_segs, 3);
    assert(p.subrange(1, 4) =~= "err"@);
    assert(p.subrange(5, 12) =~= "default"@);
    let segs = seq!["err"@, "default"@];
    assert(split_segs(p, 1) =~= segs);
    assert(forall|j: int| 0 <= j < 8 ==> !route_matches(#[trigger] spec_route_table()[j], Method::Get, segs));
    lemma_dispatch_hit(Method::Get, segs, 8, Option::None);
}

/// The internal-error endpoint always answers 500 with the uniform envelope
/// for `internal error`.
pub proof fn lemma_err_internal_always(rv: ReqV)
    requires
        rv.method == Method::Get,
        rv.target == "/err/custom/internal"@,
    ensures
        spec_handle(rv).status == 500,
        spec_handle(rv).body == spec_envelope("internal error"@),
{
    let p = "/err/custom/internal"@;
    reveal_strlit("/err/custom/internal");
    reveal_strlit("err");
    reveal_strlit("custom");
    reveal_strlit("internal");
    reveal_strlit("out");
    reveal_strlit("json");
    reveal_strlit("text");
    reveal_strlit("stream");
    reveal_strlit("in");
    reveal_strlit("qs");
    reveal_strlit("default");
    assert(forall|j: int| 0 <= j < p.len() ==> p[j] != '?');
    lemma_path_pieces(p);
    lemma_find_hit(p, 1, '/', 4);
    lemma_find_hit(p, 5, '/', 11);
    lemma_find_none(p, 12, '/');
    reveal_with_fuel(split_segs, 4);
    assert(p.subrange(1, 4) =~= "err"@);
    assert(p.subrange(5, 11) =~= "custom"@);
    assert(p.subrange(12, 20) =~= "internal"@);
    let segs = seq!["err"@, "custom"@, "internal"@];
    assert(split_segs(p, 1) =~= segs);
    assert(segs.take(2) =~= seq!["err"@, "custom"@]);
    assert("err"@[0] != "out"@[0]);
    assert(!route_matches(spec_route_table()[0], Method::Get, segs));
    assert(!route_matches(spec_route_table()[1], Method::Get, segs));
    assert(!route_matches(spec_route_table()[2], Method::Get, segs));
    assert(!route_matches(spec_route_table()[3], Method::Get, segs));
    assert(!route_matches(spec_route_table()[4], Method::Get, segs));
    assert(!route_matches(spec_route_table()[5], Method::Get, segs));
    assert(!route_matches(spec_route_table()[6], Method::Get, segs));
    assert(!route_matches(spec_route_table()[7], Method::Get, segs));
    assert(!route_matches(spec_route_table()[8], Method::Get, segs));
    lemma_dispatch_hit(Method::Get, segs, 9, Option::None);
}

/// The mapped-error endpoint always answers 400 with the uniform envelope
/// for `date`.
pub proof fn lemma_err_mapped_always(rv: ReqV)
    requires
        rv.method == Method::Get,
        rv.target == "/err/custom/mapped"@,
    ensures
        spec_handle(rv).status == 400,
        spec_handle(rv).body == spec_envelope("date"@),
{
    let p = "/err/custom/mapped"@;
    reveal_strlit("/err/custom/mapped");
    reveal_strlit("err");
    reveal_strlit("custom");
    reveal_strlit("mapped");
    reveal_strlit("internal");
    reveal_strlit("out");
    reveal_strlit("json");
    reveal_strlit("text");
    reveal_strlit("stream");
    reveal_strlit("in");
    reveal_strlit("qs");
    reveal_strlit("default");
    assert(forall|j: int| 0 <= j < p.len() ==> p[j] != '?');
    lemma_path_pieces(p);
    lemma_find_hit(p, 1, '/', 4);
    lemma_find_hit(p, 5, '/', 11);
    lemma_find_none(p, 12, '/');
    reveal_with_fuel(split_segs, 4);
    assert(p.subrange(1, 4) =~= "err"@);
    assert(p.subrange(5, 11) =~= "custom"@);
    assert(p.subrange(12, 18) =~= "mapped"@);
    let segs = seq!["err"@, "custom"@, "mapped"@];
    assert(split_segs(p, 1) =~= segs);
    assert(segs.take(2) =~= seq!["err"@, "custom"@]);
    assert("err"@[0] != "out"@[0]);
    assert(!route_matches(spec_route_table()[0], Method::Get, segs));
    assert(!route_matches(spec_route_table()[1], Method::Get, segs));
    assert(!route_matches(spec_route_table()[2], Method::Get, segs));
    assert(!route_matches(spec_route_table()[3], Method::Get, segs));
    assert(!route_matches(spec_route_table()[4], Method::Get, segs));
    assert(!route_matches(spec_route_table()[5], Method::Get, segs));
    assert(!route_matches(spec_route_table()[6], Method::Get, segs));
    assert(!route_matches(spec_route_table()[7], Method::Get, segs));
    assert(!route_matches(spec_route_table()[8], Method::Get, segs));
    assert(!route_matches(spec_route_table()[9], Method::Get, segs));
    lemma_dispatch_hit(Method::Get, segs, 10, Option::None);
}

/// The custom-shape endpoint's message is the captured content when there
/// is one and empty when there is none; the name is always `Roger`.
pub proof fn lemma_out_custom_message(
    cap: Option<Seq<char>>,
    query: Seq<char>,
    body: Seq<char>,
    auth: AuthV,
)
    ensures
        spec_run(HandlerId::OutCustom, cap, query, body, auth).body == spec_custom_out(
            "Roger"@,
            match cap {
                Option::Some(c) => c,
                Option::None => Seq::<char>::empty(),
            },
        ),
        spec_run(HandlerId::OutCustom, cap, query, body, auth).status == 200,
{
}

/// A request for the custom-shape endpoint without the trailing segment
/// answers with the empty message.
pub proof fn lemma_out_custom_absent(rv: ReqV)
    requires
        rv.method == Method::Get,
        rv.target == "/out/custom"@,
    ensures
        spec_handle(rv).status == 200,
        spec_handle(rv).body == spec_custom_out("Roger"@, Seq::<char>::empty()),
{
    let p = "/out/custom"@;
    reveal_strlit("/out/custom");
    reveal_strlit("out");
    reveal_strlit("custom");
    reveal_strlit("json");
    assert(forall|j: int| 0 <= j < p.len() ==> p[j] != '?');
    lemma_path_pieces(p);
    lemma_find_hit(p, 1, '/', 4);
    lemma_find_none(p, 5, '/');
    reveal_with_fuel(split_segs, 3);
    assert(p.subrange(1, 4) =~= "out"@);
    assert(p.subrange(5, 11) =~= "custom"@);
    let segs = seq!["out"@, "custom"@];
    assert(split_segs(p, 1) =~= segs);
    assert(!route_matches(spec_route_table()[0], Method::Get, segs));
    lemma_dispatch_hit(Method::Get, segs, 1, Option::None);
}

/// A request for the custom-shape endpoint with a trailing segment answers
/// with exactly that segment as the message.
pub proof fn lemma_out_custom_present(rv: ReqV, c: Seq<char>)
    requires
        rv.method == Method::Get,
        rv.target == "/out/custom/"@ + c,
        forall|j: int| 0 <= j < c.len() ==> c[j] != '/' && c[j] != '?' && c[j] != '%',
    ensures
        spec_handle(rv).status == 200,
        spec_handle(rv).body == spec_custom_out("Roger"@, c),
{
    crate::urlenc::lemma_decode_path_plain(c);
    let p = rv.target;
    reveal_strlit("/out/custom/");
    reveal_strlit("out");
    reveal_strlit("custom");
    reveal_strlit("json");
    assert(p.len() == 12 + c.len());
    assert(forall|j: int| 0 <= j < 12 ==> p[j] == "/out/custom/"@[j]);
    assert(forall|j: int| 12 <= j < p.len() ==> p[j] == c[j - 12]);
    assert(forall|j: int| 0 <= j < p.len() ==> p[j] != '?');
    lemma_path_pieces(p);
    lemma_find_hit(p, 1, '/', 4);
    lemma_find_hit(p, 5, '/', 11);
    lemma_find_none(p, 12, '/');
    reveal_with_fuel(split_segs, 4);
    assert(p.subrange(1, 4) =~= "out"@);
    assert(p.subrange(5, 11) =~= "custom"@);
    assert(p.subrange(12, p.len() as int) =~= c);
    let segs = seq!["out"@, "custom"@, c];
    assert(split_segs(p, 1) =~= segs);
    assert(segs.take(2) =~= seq!["out"@, "custom"@]);
    assert(!route_matches(spec_route_table()[0], Method::Get, segs));
    lemma_dispatch_hit(Method::Get, segs, 1, Option::Some(c));
}

/// Identical requests answer identically: the pipeline is a function of
/// the request alone, with no hidden state.
pub proof fn lemma_handle_deterministic(r1: ReqV, r2: ReqV)
    requires
        r1 == r2,
    ensures
        spec_handle(r1) == spec_handle(r2),
{
}

/// The fixed JSON endpoint answers 200 with exactly its fixed body.
pub proof fn lemma_out_json_endpoint(rv: ReqV)
    requires
        rv.method == Method::Get,
        rv.target == "/out/json"@,
    ensures
        spec_handle(rv) == (RespV {
            status: 200,
            content_type: "application/json"@,
            body: "{\"name\":\"roger\",\"age\":39,\"favourite_num\":[1,3,17]}"@,
            chunked: false,
        }),
{
    let p = "/out/json"@;
    reveal_strlit("/out/json");
    reveal_strlit("out");
    reveal_strlit("json");
    assert(forall|j: int| 0 <= j < p.len() ==> p[j] != '?');
    lemma_path_pieces(p);
    lemma_find_hit(p, 1, '/', 4);
    lemma_find_none(p, 5, '/');
    reveal_with_fuel(split_segs, 3);
    assert(p.subrange(1, 4) =~= "out"@);
    assert(p.subrange(5, 9) =~= "json"@);
    let segs = seq!["out"@, "json"@];
    assert(split_segs(p, 1) =~= segs);
    lemma_dispatch_hit(Method::Get, segs, 0, Option::None);
}

} // verus!

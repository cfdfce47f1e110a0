//! The whole request pipeline as one pure function: resolve the auth
//! header, split the target, dispatch against the route table, run the
//! handler, and map failures.  `spec_handle` pins the response for every
//! request, so two identical requests always answer identically.

use vstd::prelude::*;
use crate::error::{
    spec_error_response, spec_userinfo, error_default, error_custom_internal, error_custom_mapped,
    get_userinfo,
};
use crate::extractor::{
    spec_record, extract_query, extract_form, in_query, in_custom, in_json, in_form,
};
use crate::json::{spec_qs_echo, spec_custom_out};
use crate::jsonbody::{spec_injson, spec_json_body, extract_injson, extract_json};
use crate::middleware::{UserAuth, AuthV, spec_resolve, resolve_header};
use crate::response::{Response, RespV, ok_text, not_found, malformed_input};
use crate::router::{
    Method, HandlerId, spec_path_segs, path_segs, spec_dispatch, dispatch, spec_route_table,
    config_app,
};
use crate::urlenc::{find_from, find_from_at, opt_str_view, spec_decode_path, decode_path};

verus! {

/// One incoming request, as the host hands it over: the method, the target
/// (path and optional query string), the `Authorization` header if any, and
/// the body text.
pub struct Request {
    pub method: Method,
    pub target: String,
    pub auth_header: Option<String>,
    pub body: String,
}

/// The mathematical value of a request.
pub struct ReqV {
    pub method: Method,
    pub target: Seq<char>,
    pub auth_header: Option<Seq<char>>,
    pub body: Seq<char>,
}

impl View for Request {
    type V = ReqV;

    open spec fn view(&self) -> ReqV {
        ReqV {
            method: self.method,
            target: self.target@,
            auth_header: match self.auth_header {
                Option::Some(h) => Option::Some(h@),
                Option::None => Option::None,
            },
            body: self.body@,
        }
    }
}

/// The response of a request that matched no route.
pub open spec fn spec_not_found() -> RespV {
    RespV {
        status: 404,
        content_type: "text/plain; charset=utf-8"@,
        body: Seq::empty(),
        chunked: false,
    }
}

/// The response of a request whose typed extraction failed.
pub open spec fn spec_malformed() -> RespV {
    RespV {
        status: 400,
        content_type: "text/plain; charset=utf-8"@,
        body: "malformed input"@,
        chunked: false,
    }
}

/// What each handler answers, given its capture, the query string, the body
/// and the resolved auth value.
pub open spec fn spec_run(
    h: HandlerId,
    cap: Option<Seq<char>>,
    query: Seq<char>,
    body: Seq<char>,
    auth: AuthV,
) -> RespV {
    match h {
        HandlerId::OutJson => RespV {
            status: 200,
            content_type: "application/json"@,
            body: "{\"name\":\"roger\",\"age\":39,\"favourite_num\":[1,3,17]}"@,
            chunked: false,
        },
        HandlerId::OutCustom => RespV {
            status: 200,
            content_type: "application/json"@,
            body: spec_custom_out("Roger"@, match cap {
                Option::Some(c) => c,
                Option::None => Seq::empty(),
            }),
            chunked: false,
        },
        HandlerId::OutText => match cap {
            Option::Some(c) => RespV {
                status: 200,
                content_type: "text/plain; charset=utf-8"@,
                body: "text data: "@ + c,
                chunked: false,
            },
            Option::None => spec_not_found(),
        },
        HandlerId::OutStream => RespV {
            status: 200,
            content_type: "application/json"@,
            body: "stream content"@,
            chunked: true,
        },
        HandlerId::InQuery => match spec_record(query) {
            Option::Some((nm, id)) => RespV {
                status: 200,
                content_type: "application/json"@,
                body: spec_qs_echo(nm, id),
                chunked: false,
            },
            Option::None => spec_malformed(),
        },
        HandlerId::InCustom => match spec_injson(body) {
            Option::Some(_) => RespV {
                status: 200,
                content_type: "application/json"@,
                body: "{\"name\":\"abc\",\"id\":32}"@,
                chunked: false,
            },
            Option::None => spec_malformed(),
        },
        HandlerId::InJson => match spec_json_body(body) {
            Option::Some(_) => RespV {
                status: 200,
                content_type: "application/json"@,
                body: "{\"name\":\"abc\",\"id\":32}"@,
                chunked: false,
            },
            Option::None => spec_malformed(),
        },
        HandlerId::InForm => match spec_record(body) {
            Option::Some(_) => RespV {
                status: 200,
                content_type: "application/json"@,
                body: "{\"name\":\"abc\",\"id\":32}"@,
                chunked: false,
            },
            Option::None => spec_malformed(),
        },
        HandlerId::ErrDefault => spec_error_response(500, "default error"@),
        HandlerId::ErrCustomInternal => spec_error_response(500, "internal error"@),
        HandlerId::ErrCustomMapped => spec_error_response(400, "date"@),
        HandlerId::ErrUserinfo => RespV {
            status: 200,
            content_type: "text/plain; charset=utf-8"@,
            body: spec_userinfo(auth),
            chunked: false,
        },
        HandlerId::Hello => RespV {
            status: 200,
            content_type: "text/plain; charset=utf-8"@,
            body: "hello, the server is up and running ~"@,
            chunked: false,
        },
    }
}

/// The query part of a target: what follows the first `?`, or nothing.
pub open spec fn spec_query_of(target: Seq<char>) -> Seq<char> {
    let q = find_from(target, 0, '?');
    if q == target.len() {
        Seq::empty()
    } else {
        target.subrange(q + 1, target.len() as int)
    }
}

/// The path part of a target: what precedes the first `?`.
pub open spec fn spec_path_of(target: Seq<char>) -> Seq<char> {
    target.subrange(0, find_from(target, 0, '?'))
}

/// The response of the whole pipeline for one request.  A captured path
/// variable is percent-decoded before its handler sees it.
pub open spec fn spec_handle(rv: ReqV) -> RespV {
    let auth = spec_resolve(rv.auth_header);
    match spec_path_segs(spec_path_of(rv.target)) {
        Option::None => spec_not_found(),
        Option::Some(segs) => match spec_dispatch(spec_route_table(), rv.method, segs) {
            Option::None => spec_not_found(),
            Option::Some((h, cap)) => match cap {
                Option::None => spec_run(
                    h,
                    Option::None,
                    spec_query_of(rv.target),
                    rv.body,
                    auth,
                ),
                Option::Some(c) => match spec_decode_path(c) {
                    Option::Some(d) => spec_run(
                        h,
                        Option::Some(d),
                        spec_query_of(rv.target),
                        rv.body,
                        auth,
                    ),
                    Option::None => spec_malformed(),
                },
            },
        },
    }
}

/// Runs one handler on its inputs.
fn run_handler(
    h: HandlerId,
    cap: Option<String>,
    query: &str,
    body: &str,
    auth: &UserAuth,
) -> (r: Response)
    ensures
        r@ == spec_run(h, opt_str_view(cap), query@, body@, auth@),
{
    match h {
        HandlerId::OutJson => crate::simple_handler::out_json(),
        HandlerId::OutCustom => crate::simple_handler::out_custom(
            match &cap {
                Option::Some(c) => Option::Some(c.as_str()),
                Option::None => Option::None,
            },
        ),
        HandlerId::OutText => match &cap {
            Option::Some(c) => crate::simple_handler::out_text(c.as_str()),
            Option::None => not_found(),
        },
        HandlerId::OutStream => crate::simple_handler::out_stream(),
        HandlerId::InQuery => match extract_query(query) {
            Option::Some(rec) => in_query(rec),
            Option::None => malformed_input(),
        },
        HandlerId::InCustom => match extract_injson(body) {
            Option::Some(rec) => in_custom(rec),
            Option::None => malformed_input(),
        },
        HandlerId::InJson => match extract_json(body) {
            Option::Some(ps) => in_json(ps),
            Option::None => malformed_input(),
        },
        HandlerId::InForm => match extract_form(body) {
            Option::Some(rec) => in_form(rec),
            Option::None => malformed_input(),
        },
        HandlerId::ErrDefault => match error_default() {
            Ok(s) => ok_text(s),
            Err(e) => e.error_response(),
        },
        HandlerId::ErrCustomInternal => match error_custom_internal() {
            Ok(s) => ok_text(s),
            Err(e) => e.error_response(),
        },
        HandlerId::ErrCustomMapped => match error_custom_mapped() {
            Ok(s) => ok_text(s),
            Err(k) => k.to_response(),
        },
        HandlerId::ErrUserinfo => ok_text(get_userinfo(auth)),
        HandlerId::Hello => ok_text("hello, the server is up and running ~".to_owned()),
    }
}

/// The whole pipeline: resolves the auth header before anything downstream
/// runs, splits the target, dispatches, runs the handler, and maps
/// failures.  The response is exactly `spec_handle` of the request's value.
pub fn handle_request(req: &Request) -> (r: Response)
    ensures
        r@ == spec_handle(req@),
{
    let target = req.target.as_str();
    let n = target.unicode_len();
    let q = find_from_at(target, 0, '?');
    let path = target.substring_char(0, q);
    let query = if q == n {
        target.substring_char(n, n)
    } else {
        target.substring_char(q + 1, n)
    };
    proof {
        assert(target@.subrange(n as int, n as int) =~= Seq::<char>::empty());
    }
    let auth = resolve_header(
        match &req.auth_header {
            Option::Some(h) => Option::Some(h.as_str()),
            Option::None => Option::None,
        },
    );
    match path_segs(path) {
        Option::Some(segs) => {
            let table = config_app();
            match dispatch(&table, req.method, &segs) {
                Option::Some((h, cap)) => match cap {
                    Option::None => run_handler(h, None, query, req.body.as_str(), &auth),
                    Option::Some(c) => match decode_path(c.as_str()) {
                        Option::Some(d) => run_handler(
                            h,
                            Some(d),
                            query,
                            req.body.as_str(),
                            &auth,
                        ),
                        Option::None => malformed_input(),
                    },
                },
                Option::None => not_found(),
            }
        },
        Option::None => not_found(),
    }
}

} // verus!

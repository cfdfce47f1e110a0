//! The auth resolver and the bearer-token chain link.  The resolver is a
//! pure function of the `Authorization` header; the chain link resolves it
//! before the downstream handler runs and passes the response through
//! unchanged.  A pre-check variant can short-circuit with a ready response
//! or an error.

use vstd::prelude::*;
use crate::strutil::str_eq;
use crate::response::Response;
use crate::error::SysErr;

verus! {

/// The per-request auth result: either no user, or a resolved user with the
/// name and the token it was resolved from.
pub enum UserAuth {
    Absent,
    Present { name: String, token: String },
}

/// The mathematical value of a `UserAuth`.
pub enum AuthV {
    Absent,
    Present { name: Seq<char>, token: Seq<char> },
}

impl View for UserAuth {
    type V = AuthV;

    open spec fn view(&self) -> AuthV {
        match self {
            UserAuth::Absent => AuthV::Absent,
            UserAuth::Present { name, token } => AuthV::Present {
                name: name@,
                token: token@,
            },
        }
    }
}

/// The fixed token literal the resolver compares against.
pub open spec fn spec_auth_token() -> Seq<char> {
    "abctoken"@
}

/// The resolver policy for a header that is present: empty or unequal to the
/// fixed token gives no user; the token itself gives the user `roger`
/// carrying the header value.
pub open spec fn spec_verify_bearer(t: Seq<char>) -> AuthV {
    if t.len() == 0 {
        AuthV::Absent
    } else if t == spec_auth_token() {
        AuthV::Present { name: "roger"@, token: t }
    } else {
        AuthV::Absent
    }
}

/// The full resolver policy over an optional header.
pub open spec fn spec_resolve(h: Option<Seq<char>>) -> AuthV {
    match h {
        Option::None => AuthV::Absent,
        Option::Some(t) => spec_verify_bearer(t),
    }
}

/// Resolves a header value that is present, by the policy above.
pub fn verify_user_by_bearertoken(token: &str) -> (r: UserAuth)
    ensures
        r@ == spec_verify_bearer(token@),
{
    if token.unicode_len() == 0 {
        return UserAuth::Absent;
    }
    if !str_eq(token, "abctoken") {
        return UserAuth::Absent;
    }
    UserAuth::Present { name: "roger".to_owned(), token: token.to_owned() }
}

/// Resolves the optional `Authorization` header: a missing header gives no
/// user, a present one goes through the bearer-token policy.
pub fn resolve_header(header: Option<&str>) -> (r: UserAuth)
    ensures
        r@ == spec_resolve(match header {
            Option::Some(t) => Option::Some(t@),
            Option::None => Option::None,
        }),
{
    match header {
        Option::Some(t) => verify_user_by_bearertoken(t),
        Option::None => UserAuth::Absent,
    }
}

/// The resolver, applied to a header value that is present: the one policy
/// of the pipeline, the bearer-token comparison above.
pub fn verify_token(token: &str) -> (r: UserAuth)
    ensures
        r@ == spec_verify_bearer(token@),
{
    verify_user_by_bearertoken(token)
}

/// What the chain does after the pre-check: hand back a ready response,
/// fail, or go on to the downstream handler.
pub enum ChainDecision {
    ShortCircuit(Response),
    Fail(SysErr),
    Proceed,
}

/// The pre-check of the chain link.  It resolves the header by the
/// bearer-token policy and never short-circuits: the minimal chain lets
/// every request proceed, whatever the auth outcome.
pub fn pre_process_request(header: Option<&str>) -> (r: (UserAuth, Result<Option<Response>, SysErr>))
    ensures
        r.0@ == spec_resolve(match header {
            Option::Some(t) => Option::Some(t@),
            Option::None => Option::None,
        }),
        r.1 matches Ok(o) && o is None,
{
    let auth = resolve_header(header);
    (auth, Ok(Option::None))
}

/// The post-processing of the chain link: a placeholder that returns the
/// downstream response unmodified.
pub fn post_process_response(response: Response) -> (r: Response)
    ensures
        r@ == response@,
{
    response
}

/// Maps a pre-check outcome to what the chain does next: a ready response
/// short-circuits, an error fails, and only an empty outcome proceeds.
pub fn chain_decide(pre: Result<Option<Response>, SysErr>) -> (d: ChainDecision)
    ensures
        match pre {
            Ok(o) => match o {
                Option::Some(resp) => d matches ChainDecision::ShortCircuit(r2) && r2@ == resp@,
                Option::None => d is Proceed,
            },
            Err(e) => d matches ChainDecision::Fail(e2) && e2 == e,
        },
{
    match pre {
        Ok(o) => match o {
            Option::Some(resp) => ChainDecision::ShortCircuit(resp),
            Option::None => ChainDecision::Proceed,
        },
        Err(e) => ChainDecision::Fail(e),
    }
}

/// The factory of the chain link: wrapping a downstream service makes one
/// link around it.
pub struct BearerTokenMiddlewareInit;

/// One chain link.  The downstream service itself stays with the host; the
/// link's own work is the pre-check on entry and the pass-through on exit.
pub struct BearerTokenMiddleware;

impl BearerTokenMiddlewareInit {
    /// Makes the link.
    pub fn new_transform(&self) -> (m: BearerTokenMiddleware) {
        BearerTokenMiddleware
    }
}

impl BearerTokenMiddleware {
    /// The entry half of the link's call: run the pre-check and decide.
    /// The resolved auth value is handed to the caller before any
    /// downstream work can start, so a downstream handler always sees a
    /// resolved value.
    pub fn call_enter(&self, header: Option<&str>) -> (r: (UserAuth, ChainDecision))
        ensures
            r.0@ == spec_resolve(match header {
                Option::Some(t) => Option::Some(t@),
                Option::None => Option::None,
            }),
            r.1 is Proceed,
    {
        let (auth, pre) = pre_process_request(header);
        let d = chain_decide(pre);
        (auth, d)
    }

    /// The exit half of the link's call: the downstream response goes out
    /// unmodified.
    pub fn call_exit(&self, response: Response) -> (r: Response)
        ensures
            r@ == response@,
    {
        post_process_response(response)
    }
}

} // verus!

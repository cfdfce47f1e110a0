//! The route table: a static, ordered collection of method-and-pattern
//! triples, dispatched by exact match with capture of one trailing path
//! variable.  The table a server should serve is built by `config_app` and
//! pinned element by element by `spec_route_table`.

use vstd::prelude::*;
use crate::strutil::str_eq;
use crate::urlenc::{find_from, lemma_find_from, find_from_at, opt_str_view};

verus! {

/// The request methods the table distinguishes.
#[derive(PartialEq, Eq, Structural, Clone, Copy, Debug)]
pub enum Method {
    Get,
    Post,
}

/// The handlers a route can point at.
#[derive(PartialEq, Eq, Structural, Clone, Copy, Debug)]
pub enum HandlerId {
    OutJson,
    OutCustom,
    OutText,
    OutStream,
    InQuery,
    InCustom,
    InJson,
    InForm,
    ErrDefault,
    ErrCustomInternal,
    ErrCustomMapped,
    ErrUserinfo,
    Hello,
}

/// How a pattern ends after its literal segments: exactly there, with one
/// required variable segment, or with one optional variable segment.
#[derive(PartialEq, Eq, Structural, Clone, Copy, Debug)]
pub enum Tail {
    Exact,
    Var,
    OptVar,
}

/// One route: a method, the literal segments of the pattern, the tail kind,
/// and the handler dispatched to.
pub struct Route {
    pub method: Method,
    pub lits: Vec<String>,
    pub tail: Tail,
    pub handler: HandlerId,
}

/// The mathematical value of a route.
pub struct RouteV {
    pub method: Method,
    pub lits: Seq<Seq<char>>,
    pub tail: Tail,
    pub handler: HandlerId,
}

/// The views of a list of owned segments.
pub open spec fn segs_v(v: Seq<String>) -> Seq<Seq<char>> {
    v.map_values(|x: String| x@)
}

impl View for Route {
    type V = RouteV;

    open spec fn view(&self) -> RouteV {
        RouteV {
            method: self.method,
            lits: segs_v(self.lits@),
            tail: self.tail,
            handler: self.handler,
        }
    }
}

/// The views of a route list.
pub open spec fn routes_v(v: Seq<Route>) -> Seq<RouteV> {
    v.map_values(|r: Route| r@)
}

/// Whether a route matches a method and a segment list.
pub open spec fn route_matches(rv: RouteV, m: Method, segs: Seq<Seq<char>>) -> bool {
    &&& m == rv.method
    &&& match rv.tail {
        Tail::Exact => segs == rv.lits,
        Tail::Var => segs.len() == rv.lits.len() + 1 && segs.take(rv.lits.len() as int)
            == rv.lits,
        Tail::OptVar => segs == rv.lits || (segs.len() == rv.lits.len() + 1 && segs.take(
            rv.lits.len() as int,
        ) == rv.lits),
    }
}

/// The captured variable segment of a matching route, if its pattern has
/// one and the path supplied it.
pub open spec fn capture_of(rv: RouteV, segs: Seq<Seq<char>>) -> Option<Seq<char>> {
    match rv.tail {
        Tail::Exact => Option::None,
        Tail::Var => Option::Some(segs.last()),
        Tail::OptVar => if segs.len() == rv.lits.len() + 1 {
            Option::Some(segs.last())
        } else {
            Option::None
        },
    }
}

/// The path segments after position `i`, split on `/`.
pub open spec fn split_segs(s: Seq<char>, i: int) -> Seq<Seq<char>>
    decreases s.len() + 1 - i,
    when 0 <= i <= s.len()
{
    proof {
        lemma_find_from(s, i, '/');
    }
    let sl = find_from(s, i, '/');
    if sl == s.len() {
        seq![s.subrange(i, sl)]
    } else {
        seq![s.subrange(i, sl)] + split_segs(s, sl + 1)
    }
}

/// The segments of an absolute path; a path not starting with `/` has none.
pub open spec fn spec_path_segs(p: Seq<char>) -> Option<Seq<Seq<char>>> {
    if p.len() >= 1 && p[0] == '/' {
        Option::Some(split_segs(p, 1))
    } else {
        Option::None
    }
}

fn split_from(s: &str, i: usize) -> (r: Vec<String>)
    requires
        i <= s@.len(),
    ensures
        segs_v(r@) == split_segs(s@, i as int),
    decreases s@.len() - i,
{
    let sl = find_from_at(s, i, '/');
    let piece = s.substring_char(i, sl).to_owned();
    let ghost pv = piece@;
    if sl == s.unicode_len() {
        let mut v: Vec<String> = Vec::new();
        v.push(piece);
        proof {
            assert(segs_v(v@) =~= seq![pv]);
        }
        v
    } else {
        let mut rest = split_from(s, sl + 1);
        rest.insert(0, piece);
        proof {
            assert(segs_v(rest@) =~= seq![pv] + split_segs(s@, sl + 1));
        }
        rest
    }
}

/// Splits an absolute path into its segments.
pub fn path_segs(p: &str) -> (r: Option<Vec<String>>)
    ensures
        match r {
            Option::Some(v) => spec_path_segs(p@) == Option::Some(segs_v(v@)),
            Option::None => spec_path_segs(p@) is None,
        },
{
    if p.unicode_len() >= 1 && p.get_char(0) == '/' {
        Some(split_from(p, 1))
    } else {
        None
    }
}

fn prefix_eq(lits: &Vec<String>, segs: &Vec<String>, k: usize) -> (r: bool)
    requires
        k <= lits@.len(),
        k <= segs@.len(),
    ensures
        r == (segs_v(segs@).take(k as int) == segs_v(lits@).take(k as int)),
{
    let mut i: usize = 0;
    while i < k
        invariant
            k <= lits@.len(),
            k <= segs@.len(),
            0 <= i <= k,
            forall|j: int| 0 <= j < i ==> segs@[j]@ == lits@[j]@,
        decreases k - i,
    {
        if !str_eq(segs[i].as_str(), lits[i].as_str()) {
            proof {
                assert(segs_v(segs@).take(k as int)[i as int] == segs@[i as int]@);
                assert(segs_v(lits@).take(k as int)[i as int] == lits@[i as int]@);
            }
            return false;
        }
        i += 1;
    }
    proof {
        assert(segs_v(segs@).take(k as int) =~= segs_v(lits@).take(k as int));
    }
    true
}

fn route_match(r: &Route, m: Method, segs: &Vec<String>) -> (res: (bool, Option<String>))
    ensures
        res.0 == route_matches(r@, m, segs_v(segs@)),
        res.0 ==> opt_str_view(res.1) == capture_of(r@, segs_v(segs@)),
{
    if m != r.method {
        return (false, None);
    }
    match r.tail {
        Tail::Exact => {
            if segs.len() == r.lits.len() && prefix_eq(&r.lits, segs, r.lits.len()) {
                proof {
                    assert(segs_v(segs@).take(segs@.len() as int) =~= segs_v(segs@));
                    assert(segs_v(r.lits@).take(r.lits@.len() as int) =~= segs_v(r.lits@));
                }
                (true, None)
            } else {
                proof {
                    assert(segs_v(segs@).take(segs@.len() as int) =~= segs_v(segs@));
                    assert(segs_v(r.lits@).take(r.lits@.len() as int) =~= segs_v(r.lits@));
                }
                (false, None)
            }
        },
        Tail::Var => {
            if segs.len() >= 1 && segs.len() - 1 == r.lits.len() && prefix_eq(
                &r.lits,
                segs,
                r.lits.len(),
            ) {
                proof {
                    assert(segs_v(r.lits@).take(r.lits@.len() as int) =~= segs_v(r.lits@));
                }
                let cap = segs[segs.len() - 1].clone();
                proof {
                    assert(cap@ == segs_v(segs@).last());
                }
                (true, Some(cap))
            } else {
                proof {
                    assert(segs_v(r.lits@).take(r.lits@.len() as int) =~= segs_v(r.lits@));
                }
                (false, None)
            }
        },
        Tail::OptVar => {
            if segs.len() == r.lits.len() && prefix_eq(&r.lits, segs, r.lits.len()) {
                proof {
                    assert(segs_v(segs@).take(segs@.len() as int) =~= segs_v(segs@));
                    assert(segs_v(r.lits@).take(r.lits@.len() as int) =~= segs_v(r.lits@));
                }
                (true, None)
            } else if segs.len() >= 1 && segs.len() - 1 == r.lits.len() && prefix_eq(
                &r.lits,
                segs,
                r.lits.len(),
            ) {
                proof {
                    assert(segs_v(r.lits@).take(r.lits@.len() as int) =~= segs_v(r.lits@));
                }
                let cap = segs[segs.len() - 1].clone();
                proof {
                    assert(cap@ == segs_v(segs@).last());
                }
                (true, Some(cap))
            } else {
                proof {
                    assert(segs_v(segs@).take(segs@.len() as int) =~= segs_v(segs@));
                    assert(segs_v(r.lits@).take(r.lits@.len() as int) =~= segs_v(r.lits@));
                }
                (false, None)
            }
        },
    }
}

/// First-match dispatch over the table from position `i`.
pub open spec fn spec_dispatch_from(
    table: Seq<RouteV>,
    i: int,
    m: Method,
    segs: Seq<Seq<char>>,
) -> Option<(HandlerId, Option<Seq<char>>)>
    decreases table.len() - i,
{
    if i < 0 || i >= table.len() {
        Option::None
    } else if route_matches(table[i], m, segs) {
        Option::Some((table[i].handler, capture_of(table[i], segs)))
    } else {
        spec_dispatch_from(table, i + 1, m, segs)
    }
}

/// First-match dispatch over the whole table.
pub open spec fn spec_dispatch(table: Seq<RouteV>, m: Method, segs: Seq<Seq<char>>) -> Option<
    (HandlerId, Option<Seq<char>>),
> {
    spec_dispatch_from(table, 0, m, segs)
}

fn dispatch_from(table: &Vec<Route>, i: usize, m: Method, segs: &Vec<String>) -> (r: Option<
    (HandlerId, Option<String>),
>)
    requires
        i <= table@.len(),
    ensures
        match r {
            Option::Some(p) => spec_dispatch_from(routes_v(table@), i as int, m, segs_v(segs@))
                == Option::Some((p.0, opt_str_view(p.1))),
            Option::None => spec_dispatch_from(routes_v(table@), i as int, m, segs_v(segs@))
                is None,
        },
    decreases table@.len() - i,
{
    if i >= table.len() {
        return None;
    }
    let (hit, cap) = route_match(&table[i], m, segs);
    if hit {
        Some((table[i].handler, cap))
    } else {
        dispatch_from(table, i + 1, m, segs)
    }
}

/// Dispatches a method and a segment list against a table: the first route
/// that matches decides the handler and the capture.
pub fn dispatch(table: &Vec<Route>, m: Method, segs: &Vec<String>) -> (r: Option<
    (HandlerId, Option<String>),
>)
    ensures
        match r {
            Option::Some(p) => spec_dispatch(routes_v(table@), m, segs_v(segs@)) == Option::Some(
                (p.0, opt_str_view(p.1)),
            ),
            Option::None => spec_dispatch(routes_v(table@), m, segs_v(segs@)) is None,
        },
{
    dispatch_from(table, 0, m, segs)
}

/// The table the application serves.
pub open spec fn spec_route_table() -> Seq<RouteV> {
    seq![
        RouteV { method: Method::Get, lits: seq!["out"@, "json"@], tail: Tail::Exact, handler: HandlerId::OutJson },
        RouteV { method: Method::Get, lits: seq!["out"@, "custom"@], tail: Tail::OptVar, handler: HandlerId::OutCustom },
        RouteV { method: Method::Get, lits: seq!["out"@, "text"@], tail: Tail::Var, handler: HandlerId::OutText },
        RouteV { method: Method::Get, lits: seq!["out"@, "stream"@], tail: Tail::Exact, handler: HandlerId::OutStream },
        RouteV { method: Method::Get, lits: seq!["in"@, "qs"@], tail: Tail::Exact, handler: HandlerId::InQuery },
        RouteV { method: Method::Post, lits: seq!["in"@, "custom"@], tail: Tail::Exact, handler: HandlerId::InCustom },
        RouteV { method: Method::Post, lits: seq!["in"@, "json"@], tail: Tail::Exact, handler: HandlerId::InJson },
        RouteV { method: Method::Post, lits: seq!["in"@, "form"@], tail: Tail::Exact, handler: HandlerId::InForm },
        RouteV { method: Method::Get, lits: seq!["err"@, "default"@], tail: Tail::Exact, handler: HandlerId::ErrDefault },
        RouteV { method: Method::Get, lits: seq!["err"@, "custom"@, "internal"@], tail: Tail::Exact, handler: HandlerId::ErrCustomInternal },
        RouteV { method: Method::Get, lits: seq!["err"@, "custom"@, "mapped"@], tail: Tail::Exact, handler: HandlerId::ErrCustomMapped },
        RouteV { method: Method::Get, lits: seq!["err"@, "custom"@, "userinfo"@], tail: Tail::Exact, handler: HandlerId::ErrUserinfo },
        RouteV { method: Method::Get, lits: seq!["hello"@], tail: Tail::Exact, handler: HandlerId::Hello },
    ]
}

fn mk_route(m: Method, lits: Vec<String>, tail: Tail, handler: HandlerId) -> (r: Route)
    ensures
        r@ == (RouteV { method: m, lits: segs_v(lits@), tail: tail, handler: handler }),
{
    Route { method: m, lits, tail, handler }
}

/// Builds the application's route table.
pub fn config_app() -> (t: Vec<Route>)
    ensures
        routes_v(t@) == spec_route_table(),
{
    let mut t: Vec<Route> = Vec::new();
    t.push(mk_route(Method::Get, vec!["out".to_owned(), "json".to_owned()], Tail::Exact, HandlerId::OutJson));
    t.push(mk_route(Method::Get, vec!["out".to_owned(), "custom".to_owned()], Tail::OptVar, HandlerId::OutCustom));
    t.push(mk_route(Method::Get, vec!["out".to_owned(), "text".to_owned()], Tail::Var, HandlerId::OutText));
    t.push(mk_route(Method::Get, vec!["out".to_owned(), "stream".to_owned()], Tail::Exact, HandlerId::OutStream));
    t.push(mk_route(Method::Get, vec!["in".to_owned(), "qs".to_owned()], Tail::Exact, HandlerId::InQuery));
    t.push(mk_route(Method::Post, vec!["in".to_owned(), "custom".to_owned()], Tail::Exact, HandlerId::InCustom));
    t.push(mk_route(Method::Post, vec!["in".to_owned(), "json".to_owned()], Tail::Exact, HandlerId::InJson));
    t.push(mk_route(Method::Post, vec!["in".to_owned(), "form".to_owned()], Tail::Exact, HandlerId::InForm));
    t.push(mk_route(Method::Get, vec!["err".to_owned(), "default".to_owned()], Tail::Exact, HandlerId::ErrDefault));
    t.push(mk_route(Method::Get, vec!["err".to_owned(), "custom".to_owned(), "internal".to_owned()], Tail::Exact, HandlerId::ErrCustomInternal));
    t.push(mk_route(Method::Get, vec!["err".to_owned(), "custom".to_owned(), "mapped".to_owned()], Tail::Exact, HandlerId::ErrCustomMapped));
    t.push(mk_route(Method::Get, vec!["err".to_owned(), "custom".to_owned(), "userinfo".to_owned()], Tail::Exact, HandlerId::ErrUserinfo));
    t.push(mk_route(Method::Get, vec!["hello".to_owned()], Tail::Exact, HandlerId::Hello));
    proof {
        assert(segs_v(t@[0].lits@) =~= seq!["out"@, "json"@]);
        assert(segs_v(t@[1].lits@) =~= seq!["out"@, "custom"@]);
        assert(segs_v(t@[2].lits@) =~= seq!["out"@, "text"@]);
        assert(segs_v(t@[3].lits@) =~= seq!["out"@, "stream"@]);
        assert(segs_v(t@[4].lits@) =~= seq!["in"@, "qs"@]);
        assert(segs_v(t@[5].lits@) =~= seq!["in"@, "custom"@]);
        assert(segs_v(t@[6].lits@) =~= seq!["in"@, "json"@]);
        assert(segs_v(t@[7].lits@) =~= seq!["in"@, "form"@]);
        assert(segs_v(t@[8].lits@) =~= seq!["err"@, "default"@]);
        assert(segs_v(t@[9].lits@) =~= seq!["err"@, "custom"@, "internal"@]);
        assert(segs_v(t@[10].lits@) =~= seq!["err"@, "custom"@, "mapped"@]);
        assert(segs_v(t@[11].lits@) =~= seq!["err"@, "custom"@, "userinfo"@]);
        assert(segs_v(t@[12].lits@) =~= seq!["hello"@]);
        assert(routes_v(t@) =~= spec_route_table());
    }
    t
}

} // verus!

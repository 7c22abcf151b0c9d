//! Route patterns, the matcher that decides whether a request satisfies a
//! pattern (capturing `:name` path parameters), the ordered route table,
//! and the dispatch decision for one connection.
//!
//! Pattern semantics: both the pattern and the request URI are split into
//! `/`-delimited segments.  A pattern segment that is exactly `*` matches
//! any single segment; as the final segment it also absorbs any number of
//! further request segments.  A segment starting with `:` matches any
//! single non-empty segment and binds the rest of its name to that value.
//! A segment merely containing `*` (such as `*blah`) is a literal.  All
//! other segments match literally, case-sensitively.
use crate::dict::Dict;
use crate::method::HttpMethod;
use crate::request::{
    parse_request, spec_message, spec_parse_request, FlorenceRequest, ParseErrorView, Request,
    RequestView,
};
use crate::response::{serialize_response, spec_serialize, FlorenceResponse, Response};
use crate::strutil::{split_on, split_str, str_eq};
use vstd::prelude::*;

verus! {

/// The mathematical content of a registered route.
pub struct RouteView {
    pub method: HttpMethod,
    pub uri: Seq<char>,
}

/// One registered binding: a method and a URI pattern.  The handler bound
/// at registration is owned by the embedding application, keyed by the
/// route's registration index.
pub struct Route {
    method: HttpMethod,
    uri: String,
}

impl View for Route {
    type V = RouteView;

    closed spec fn view(&self) -> RouteView {
        RouteView { method: self.method, uri: self.uri@ }
    }
}

impl DeepView for Route {
    type V = RouteView;

    open spec fn deep_view(&self) -> RouteView {
        self@
    }
}

impl Clone for Route {
    fn clone(&self) -> (r: Route)
        ensures
            r@ == self@,
    {
        Route { method: self.method, uri: self.uri.clone() }
    }
}

impl Route {
    /// Binds `method` and a URI pattern.
    pub fn new(method: HttpMethod, uri: String) -> (r: Route)
        ensures
            r@ == (RouteView { method, uri: uri@ }),
    {
        Route { method, uri }
    }

    /// The URI pattern the route was registered with.
    pub fn uri(&self) -> (u: &String)
        ensures
            u@ == self@.uri,
    {
        &self.uri
    }
}

/// The `/`-delimited segments of a URI or pattern.
pub open spec fn segments(s: Seq<char>) -> Seq<Seq<char>> {
    split_on(s, seq!['/'])
}

/// Whether pattern segment `p` accepts request segment `r`: `*` accepts
/// anything, `:name` accepts any non-empty segment, and everything else
/// must be equal character for character.
pub open spec fn seg_ok(p: Seq<char>, r: Seq<char>) -> bool {
    if p == seq!['*'] {
        true
    } else if p.len() > 0 && p[0] == ':' {
        r.len() > 0
    } else {
        p == r
    }
}

/// Whether the pattern segments `ps` accept the request segments `rs`:
/// segment counts must agree, except that a final `*` segment may absorb
/// extra request segments, and each pattern segment must accept the
/// request segment at its position.
pub open spec fn pat_matches(ps: Seq<Seq<char>>, rs: Seq<Seq<char>>) -> bool {
    &&& (rs.len() == ps.len() || (ps.len() > 0 && ps.last() == seq!['*'] && rs.len() > ps.len()))
    &&& (forall|i: int| 0 <= i < ps.len() ==> seg_ok(ps[i], rs[i]))
}

/// Whether a request with `method` and `uri` satisfies `route`.
pub open spec fn spec_route_matches(route: RouteView, method: HttpMethod, uri: Seq<char>) -> bool {
    route.method == method && pat_matches(segments(route.uri), segments(uri))
}

/// The parameters captured by the first `i` pattern segments: each
/// `:name` segment binds the rest of its name to the request segment at
/// its position.
pub open spec fn params_map(ps: Seq<Seq<char>>, rs: Seq<Seq<char>>, i: int) -> Map<
    Seq<char>,
    Seq<char>,
>
    decreases i,
{
    if i <= 0 {
        Map::empty()
    } else {
        let m = params_map(ps, rs, i - 1);
        let p = ps[i - 1];
        if p.len() > 0 && p[0] == ':' {
            m.insert(p.subrange(1, p.len() as int), rs[i - 1])
        } else {
            m
        }
    }
}

/// The parameters captured when `pattern` matches `uri`.
pub open spec fn route_params(pattern: Seq<char>, uri: Seq<char>) -> Map<Seq<char>, Seq<char>> {
    params_map(segments(pattern), segments(uri), segments(pattern).len() as int)
}

/// The mathematical content of a successful match.
pub struct RouteMatchView {
    pub params: Map<Seq<char>, Seq<char>>,
    pub route: RouteView,
}

/// The outcome of successfully matching a request against a route: the
/// route and the captured path parameters.
pub struct RouteMatch {
    params: Dict,
    route: Route,
}

impl View for RouteMatch {
    type V = RouteMatchView;

    closed spec fn view(&self) -> RouteMatchView {
        RouteMatchView { params: self.params@, route: self.route@ }
    }
}

impl RouteMatch {
    /// Pairs a matched route with its captured parameters.
    pub fn new(route: Route, params: Dict) -> (r: RouteMatch)
        ensures
            r@ == (RouteMatchView { params: params@, route: route@ }),
    {
        RouteMatch { route, params }
    }

    /// The captured path parameters, keyed by `:name` without the colon.
    pub fn params(&self) -> (p: &Dict)
        ensures
            p@ == self@.params,
    {
        &self.params
    }

    /// The matched route.
    pub fn route(&self) -> (r: &Route)
        ensures
            r@ == self@.route,
    {
        &self.route
    }
}

/// Decides whether `request` satisfies `route` and, if so, returns the
/// match with its captured parameters.
pub fn match_route(request: &Request, route: &Route) -> (m: Option<RouteMatch>)
    ensures
        match m {
            Some(rm) => spec_route_matches(route@, request@.method, request@.uri) && rm@.route
                == route@ && rm@.params == route_params(route@.uri, request@.uri),
            None => !spec_route_matches(route@, request@.method, request@.uri),
        },
{
    proof {
        reveal_strlit("/");
        reveal_strlit("*");
        assert("/"@ =~= seq!['/']);
        assert("*"@ =~= seq!['*']);
    }
    let req_method = request.get_method();
    if *req_method != route.method {
        return None;
    }
    let ps = split_str(route.uri.as_str(), "/");
    let rs = split_str(request.uri().as_str(), "/");
    let ghost psv = ps.deep_view();
    let ghost rsv = rs.deep_view();
    let psn = ps.len();
    let rsn = rs.len();
    let tail_wild = psn > 0 && str_eq(ps[psn - 1].as_str(), "*");
    if !(rsn == psn || (tail_wild && rsn > psn)) {
        proof {
            assert(psv.len() > 0 ==> psv.last() == psv[psn - 1]);
        }
        return None;
    }
    let mut params = Dict::new();
    let mut i: usize = 0;
    while i < psn
        invariant
            i <= psn,
            forall|j: int| 0 <= j < i ==> seg_ok(psv[j], rsv[j]),
            params@ == params_map(psv, rsv, i as int),
        decreases psn - i,
    {
        let p = &ps[i];
        if str_eq(p.as_str(), "*") {
            // a lone `*` accepts any segment and binds nothing
        } else if p.as_str().unicode_len() > 0 && p.as_str().get_char(0) == ':' {
            if rs[i].as_str().is_empty() {
                proof {
                    assert(!seg_ok(psv[i as int], rsv[i as int]));
                }
                return None;
            }
            let name = p.as_str().substring_char(1, p.as_str().unicode_len());
            params.insert(String::from_str(name), rs[i].clone());
        } else {
            if !str_eq(p.as_str(), rs[i].as_str()) {
                proof {
                    assert(!seg_ok(psv[i as int], rsv[i as int]));
                }
                return None;
            }
        }
        i = i + 1;
    }
    Some(RouteMatch::new(route.clone(), params))
}

/// The registration interface the embedding application builds the route
/// table through.
pub trait Router {
    spec fn routes(&self) -> Seq<RouteView>;

    /// Registers a GET route for `uri`, behind any routes registered
    /// earlier.
    fn get(&mut self, uri: String)
        ensures
            final(self).routes() == old(self).routes().push(
                RouteView { method: HttpMethod::GET, uri: uri@ },
            ),
    ;
}

/// The server core: an ordered table of registered routes, searched in
/// registration order, first match wins.
pub struct Florence {
    routes: Vec<Route>,
}

impl View for Florence {
    type V = Seq<RouteView>;

    closed spec fn view(&self) -> Seq<RouteView> {
        self.routes.deep_view()
    }
}

impl Router for Florence {
    open spec fn routes(&self) -> Seq<RouteView> {
        self@
    }

    fn get(&mut self, uri: String) {
        let ghost prev = self@;
        let ghost uriv = uri@;
        let route = Route::new(HttpMethod::GET, uri);
        self.routes.push(route);
        proof {
            assert(self@ =~= prev.push(RouteView { method: HttpMethod::GET, uri: uriv }));
        }
    }
}

/// Whether some registered route accepts a request with `method` and
/// `uri`.
pub open spec fn some_route_matches(
    routes: Seq<RouteView>,
    method: HttpMethod,
    uri: Seq<char>,
) -> bool {
    exists|j: int| 0 <= j < routes.len() && spec_route_matches(routes[j], method, uri)
}

/// What the connection handler decides to do once the raw buffer has been
/// parsed and the route table consulted.
pub enum Dispatch {
    /// Run the handler registered at `route_index` with `request` and a
    /// fresh response, then serialize and write what the handler left.
    Invoke { route_index: usize, request: Request, route_match: RouteMatch },
    /// Write this complete reply as it stands; no handler runs.  Carries
    /// the `400 Bad Request` reply for a parse error and the fixed
    /// `404 Not Found` reply when no route matches.
    Respond(String),
}

impl Florence {
    /// An empty route table.
    pub fn new() -> (f: Florence)
        ensures
            f@ == Seq::<RouteView>::empty(),
    {
        let f = Florence { routes: Vec::new() };
        proof {
            assert(f@ =~= Seq::<RouteView>::empty());
        }
        f
    }

    /// Searches the route table in registration order and returns the
    /// first route that accepts `request`, with its index and captured
    /// parameters; `None` when no route accepts it.
    pub fn match_request(&self, request: &Request) -> (r: Option<(usize, RouteMatch)>)
        ensures
            match r {
                Some((i, rm)) => i < self@.len() && spec_route_matches(
                    self@[i as int],
                    request@.method,
                    request@.uri,
                ) && (forall|j: int|
                    0 <= j < i ==> !spec_route_matches(self@[j], request@.method, request@.uri))
                    && rm@.route == self@[i as int] && rm@.params == route_params(
                    self@[i as int].uri,
                    request@.uri,
                ),
                None => forall|j: int|
                    0 <= j < self@.len() ==> !spec_route_matches(
                        self@[j],
                        request@.method,
                        request@.uri,
                    ),
            },
    {
        let mut i: usize = 0;
        while i < self.routes.len()
            invariant
                i <= self.routes.len(),
                forall|j: int|
                    0 <= j < i ==> !spec_route_matches(self@[j], request@.method, request@.uri),
            decreases self.routes.len() - i,
        {
            let route_match = match_route(request, &self.routes[i]);
            match route_match {
                Some(rm) => {
                    return Some((i, rm));
                },
                None => {},
            }
            i = i + 1;
        }
        None
    }

    /// Decides one connection: parses `raw`, reports a parse failure as a
    /// complete `400` reply carrying the error message, picks the first
    /// matching route for a parsed request, and falls back to the fixed
    /// `404 Not Found` reply when no route matches.
    pub fn handle_request(&self, raw: String) -> (d: Dispatch)
        ensures
            (spec_parse_request(raw@) matches Err(e) ==> (d matches Dispatch::Respond(s) && s@
                == spec_serialize(400, spec_message(e)))),
            (spec_parse_request(raw@) matches Ok(rv) ==> (if some_route_matches(
                self@,
                rv.method,
                rv.uri,
            ) {
                d matches Dispatch::Invoke { route_index, request, route_match } && request@
                    == rv && route_index < self@.len() && spec_route_matches(
                    self@[route_index as int],
                    rv.method,
                    rv.uri,
                ) && (forall|j: int|
                    0 <= j < route_index ==> !spec_route_matches(self@[j], rv.method, rv.uri))
                    && route_match@.route == self@[route_index as int] && route_match@.params
                    == route_params(self@[route_index as int].uri, rv.uri)
            } else {
                d matches Dispatch::Respond(s) && s@ == spec_serialize(404, "Not found"@)
            })),
    {
        let request = match parse_request(raw) {
            Ok(req) => req,
            Err(e) => {
                let mut resp = Response::new();
                resp.set_status(400);
                resp.set_body(e.message());
                return Dispatch::Respond(serialize_response(&resp));
            },
        };
        match self.match_request(&request) {
            Some((i, rm)) => Dispatch::Invoke { route_index: i, request, route_match: rm },
            None => {
                let mut resp = Response::new();
                resp.set_status(404);
                resp.set_body(String::from_str("Not found"));
                Dispatch::Respond(serialize_response(&resp))
            },
        }
    }
}

} // verus!

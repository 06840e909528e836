//! The routing table: handlers registered under a method and a path pattern,
//! matched first-registered-first.

use vstd::prelude::*;
use vstd::string::StringSliceAdditionalSpecFns;
use vstd::slice::slice_to_vec;
use bytes::BytesMut;
use crate::pattern::{Pattern, compile, escape, captures, regex_compiles, regex_escape, regex_captures};
use crate::response::{Response, ResponseView, reason_phrase, status_code_to_message};

verus! {

/// Why a request or a registration found no route.
pub enum RouterError {
    /// The request path is empty.
    InvalidPath,
    /// No route is registered under this method.
    MethodNotAllowed(String),
    /// No pattern of the method matches this path.
    NotFound(String),
    /// This pattern text does not compile.
    InvalidPattern(String),
}

/// How a pattern text becomes a regular expression.
#[derive(Clone, Copy, Debug, PartialEq, Eq, Structural)]
pub enum MatchType {
    /// The whole path equals the text.
    Exact,
    /// The text is a regular expression that must match the whole path.
    Regex,
    /// The path starts with the text.
    Prefix,
}

/// What a route handler does: turn the captured path parameters into a
/// response.
pub trait Handler {
    /// Whether `rsp` is a response this handler may give for `params`. A
    /// relation rather than a function, so that a handler over shared,
    /// changing application state can answer differently from call to call.
    /// A handler that states nothing of its responses keeps this default.
    open spec fn responds(&self, params: Seq<Seq<char>>, rsp: ResponseView) -> bool {
        true
    }

    fn invoke(&self, params: Vec<String>) -> (r: Response)
        ensures
            self.responds(strings_view(params@), r@),
    ;
}

/// A handler that answers every request with 200 and a fixed JSON body.
pub struct JsonHandler {
    pub body: &'static str,
}

impl JsonHandler {
    /// A handler answering with `body`.
    pub fn new(body: &'static str) -> (r: Self)
        ensures
            r.body == body,
    {
        JsonHandler { body }
    }
}

impl Handler for JsonHandler {
    open spec fn responds(&self, params: Seq<Seq<char>>, rsp: ResponseView) -> bool {
        rsp == ResponseView {
            status: 200,
            reason: "OK"@,
            headers: seq!["Content-Type: application/json"@],
            body: self.body.spec_bytes(),
        }
    }

    fn invoke(&self, params: Vec<String>) -> (r: Response) {
        let mut rsp = Response::new(BytesMut::new());
        rsp.header("Content-Type: application/json");
        rsp.body(self.body);
        assert(rsp@.headers =~= seq!["Content-Type: application/json"@]);
        rsp
    }
}

/// Whether `rsp` is what route `rt` answers for `params`: a response of its
/// handler, or, under a fixed status, that status with its standard reason,
/// no headers, and the body of a response of its handler.
pub open spec fn route_response<H: Handler>(
    rt: RouteView<H>,
    params: Seq<Seq<char>>,
    rsp: ResponseView,
) -> bool {
    match rt.status {
        None => rt.handler.responds(params, rsp),
        Some(s) => exists|v: ResponseView|
            #[trigger] rt.handler.responds(params, v) && rsp == (ResponseView {
                status: s,
                reason: reason_phrase(s),
                headers: Seq::empty(),
                body: v.body,
            }),
    }
}

/// One registration.
pub struct Route<H> {
    method: String,
    pattern: Pattern,
    match_type: MatchType,
    status: Option<usize>,
    handler: H,
}

/// What a registration means.
pub struct RouteView<H> {
    pub method: Seq<char>,
    /// The anchored regular expression the route matches with.
    pub source: Seq<char>,
    pub match_type: MatchType,
    /// A status that replaces the handler's own.
    pub status: Option<usize>,
    pub handler: H,
}

impl<H> View for Route<H> {
    type V = RouteView<H>;

    closed spec fn view(&self) -> RouteView<H> {
        RouteView {
            method: self.method@,
            source: self.pattern@,
            match_type: self.match_type,
            status: self.status,
            handler: self.handler,
        }
    }
}

/// Registered routes, in registration order.
pub struct Router<H> {
    routes: Vec<Route<H>>,
}

impl<H> View for Router<H> {
    type V = Seq<RouteView<H>>;

    closed spec fn view(&self) -> Seq<RouteView<H>> {
        self.routes@.map_values(|r: Route<H>| r@)
    }
}

/// The regular expression that a pattern text stands for under a match type.
pub open spec fn anchored_source(text: Seq<char>, match_type: MatchType) -> Seq<char> {
    match match_type {
        MatchType::Exact => "^"@ + regex_escape(text) + "$"@,
        MatchType::Prefix => "^"@ + regex_escape(text),
        MatchType::Regex => "^(?:"@ + text + ")$"@,
    }
}

/// Whether route `r` serves `path` under `method`.
pub open spec fn route_matches<H>(r: RouteView<H>, method: Seq<char>, path: Seq<char>) -> bool {
    r.method == method && regex_captures(r.source, path) is Some
}

/// Whether any route is registered under `method`.
pub open spec fn has_method<H>(rs: Seq<RouteView<H>>, method: Seq<char>) -> bool {
    exists|i: int| 0 <= i < rs.len() && #[trigger] rs[i].method == method
}

/// Whether any route serves `path` under `method`.
pub open spec fn any_match<H>(rs: Seq<RouteView<H>>, method: Seq<char>, path: Seq<char>) -> bool {
    exists|i: int| 0 <= i < rs.len() && route_matches(#[trigger] rs[i], method, path)
}

/// Route `i` serves `path` under `method`, and no earlier route does.
pub open spec fn first_match<H>(
    rs: Seq<RouteView<H>>,
    method: Seq<char>,
    path: Seq<char>,
    i: int,
) -> bool {
    &&& 0 <= i < rs.len()
    &&& route_matches(rs[i], method, path)
    &&& forall|j: int| 0 <= j < i ==> !route_matches(#[trigger] rs[j], method, path)
}

/// The text of a group, or the empty text for a group that took no part.
pub open spec fn group_text(g: Option<Seq<char>>) -> Seq<char> {
    match g {
        Some(s) => s,
        None => Seq::empty(),
    }
}

/// The parameters handed to a handler: every capture group but the whole
/// match, left to right.
pub open spec fn params_of(groups: Seq<Option<Seq<char>>>) -> Seq<Seq<char>> {
    if groups.len() == 0 {
        Seq::empty()
    } else {
        groups.subrange(1, groups.len() as int).map_values(|g: Option<Seq<char>>| group_text(g))
    }
}

/// The parameters that route `i` captures from `path`.
pub open spec fn route_params<H>(rs: Seq<RouteView<H>>, i: int, path: Seq<char>) -> Seq<Seq<char>> {
    params_of(regex_captures(rs[i].source, path)->0)
}

/// A vector of strings as character sequences.
pub open spec fn strings_view(v: Seq<String>) -> Seq<Seq<char>> {
    v.map_values(|s: String| s@)
}

/// The status of the canned response for a routing failure.
pub open spec fn error_status(e: RouterError) -> usize {
    match e {
        RouterError::InvalidPath => 400,
        RouterError::NotFound(_) => 404,
        RouterError::MethodNotAllowed(_) => 405,
        RouterError::InvalidPattern(_) => 500,
    }
}

/// The JSON body of the canned response for a status.
pub open spec fn error_body(status: usize) -> Seq<u8> {
    match status {
        400 => "{\"error\": \"Bad Request\"}".spec_bytes(),
        404 => "{\"error\": \"Not Found\"}".spec_bytes(),
        405 => "{\"error\": \"Method Not Allowed\"}".spec_bytes(),
        _ => "{\"error\": \"Internal Server Error\"}".spec_bytes(),
    }
}

/// The canned JSON response with this status.
pub open spec fn canned_view(status: usize) -> ResponseView {
    ResponseView {
        status,
        reason: reason_phrase(status),
        headers: seq!["Content-Type: application/json"@],
        body: error_body(status),
    }
}

/// The canned response for a routing failure.
pub open spec fn error_view(e: RouterError) -> ResponseView {
    canned_view(error_status(e))
}

/// Builds the canned response for a routing failure.
fn error_response(e: &RouterError) -> (r: Response)
    ensures
        r@ == error_view(*e),
{
    let code: usize = match e {
        RouterError::InvalidPath => 400,
        RouterError::NotFound(_) => 404,
        RouterError::MethodNotAllowed(_) => 405,
        RouterError::InvalidPattern(_) => 500,
    };
    let mut rsp = Response::new(BytesMut::new());
    rsp.status_code(code, status_code_to_message(code)).header("Content-Type: application/json");
    assert(rsp@.headers =~= seq!["Content-Type: application/json"@]);
    match code {
        400 => rsp.body("{\"error\": \"Bad Request\"}"),
        404 => rsp.body("{\"error\": \"Not Found\"}"),
        405 => rsp.body("{\"error\": \"Method Not Allowed\"}"),
        _ => rsp.body("{\"error\": \"Internal Server Error\"}"),
    }
    rsp
}

/// The regular expression text for a pattern under a match type.
fn pattern_source(pattern: &str, match_type: MatchType) -> (r: String)
    ensures
        r@ == anchored_source(pattern@, match_type),
{
    match match_type {
        MatchType::Exact => {
            let mut s = String::from_str("^");
            s.append(escape(pattern).as_str());
            s.append("$");
            s
        },
        MatchType::Prefix => {
            let mut s = String::from_str("^");
            s.append(escape(pattern).as_str());
            s
        },
        MatchType::Regex => {
            let mut s = String::from_str("^(?:");
            s.append(pattern);
            s.append(")$");
            s
        },
    }
}

/// The handler parameters from the groups of a match.
fn params_from(groups: Vec<Option<String>>) -> (r: Vec<String>)
    ensures
        strings_view(r@) == params_of(groups@.map_values(|o: Option<String>| crate::pattern::opt_str_view(o))),
{
    let ghost gv = groups@.map_values(|o: Option<String>| crate::pattern::opt_str_view(o));
    let mut params: Vec<String> = Vec::new();
    if groups.len() == 0 {
        assert(strings_view(params@) =~= params_of(gv));
        return params;
    }
    let ghost want = params_of(gv);
    let mut i: usize = 1;
    while i < groups.len()
        invariant
            1 <= i <= groups@.len(),
            gv == groups@.map_values(|o: Option<String>| crate::pattern::opt_str_view(o)),
            want == params_of(gv),
            strings_view(params@) == want.subrange(0, i - 1),
        decreases groups@.len() - i,
    {
        let text = match &groups[i] {
            Some(s) => s.clone(),
            None => String::new(),
        };
        let ghost before = params@;
        params.push(text);
        proof {
            assert(want[i - 1] == group_text(gv[i as int]));
            assert(text@ == want[i - 1]);
            assert(strings_view(params@) =~= strings_view(before).push(text@));
        }
        i = i + 1;
        assert(strings_view(params@) =~= want.subrange(0, i - 1));
    }
    assert(want.subrange(0, i - 1) =~= want);
    params
}


/// The routes after registering a new one at the end.
pub open spec fn registered<H>(
    rs: Seq<RouteView<H>>,
    method: Seq<char>,
    pattern: Seq<char>,
    match_type: MatchType,
    status: Option<usize>,
    handler: H,
) -> Seq<RouteView<H>> {
    rs.push(
        RouteView {
            method,
            source: anchored_source(pattern, match_type),
            match_type,
            status,
            handler,
        },
    )
}

impl<H> Router<H> {
    /// A router with no routes.
    pub fn new() -> (r: Self)
        ensures
            r@ == Seq::<RouteView<H>>::empty(),
    {
        let r = Router { routes: Vec::new() };
        assert(r@ =~= Seq::<RouteView<H>>::empty());
        r
    }

    fn add_route(
        &mut self,
        method: &str,
        pattern: &str,
        match_type: MatchType,
        status: Option<usize>,
        handler: H,
    ) -> (r: Result<(), RouterError>)
        ensures
            regex_compiles(anchored_source(pattern@, match_type)) ==> r is Ok && final(self)@
                == registered(old(self)@, method@, pattern@, match_type, status, handler),
            !regex_compiles(anchored_source(pattern@, match_type)) ==> (r matches Err(
                RouterError::InvalidPattern(p),
            ) && p@ == pattern@ && final(self)@ == old(self)@),
    {
        let source = pattern_source(pattern, match_type);
        match compile(source) {
            Ok(compiled) => {
                let route = Route {
                    method: method.to_owned(),
                    pattern: compiled,
                    match_type,
                    status,
                    handler,
                };
                self.routes.push(route);
                assert(self@ =~= registered(old(self)@, method@, pattern@, match_type, status, handler));
                Ok(())
            },
            Err(_) => Err(RouterError::InvalidPattern(pattern.to_owned())),
        }
    }

    /// Registers `handler` for `method` and a pattern text compiled under
    /// `match_type`; fails with `InvalidPattern` when the text does not
    /// compile, leaving the routes as they were.
    pub fn route(&mut self, method: &str, pattern: &str, match_type: MatchType, handler: H) -> (r:
        Result<&mut Self, RouterError>)
        ensures
            regex_compiles(anchored_source(pattern@, match_type)) ==> (r matches Ok(s) && (*s)@
                == registered(old(self)@, method@, pattern@, match_type, None, handler) && *final(self) == *final(s)),
            !regex_compiles(anchored_source(pattern@, match_type)) ==> (r matches Err(
                RouterError::InvalidPattern(p),
            ) && p@ == pattern@ && final(self)@ == old(self)@),
    {
        match self.add_route(method, pattern, match_type, None, handler) {
            Ok(()) => Ok(self),
            Err(e) => Err(e),
        }
    }

    /// Finds the first route registered under `method` whose pattern matches
    /// `path`, with its index and parameters.
    fn find_route(&self, method: &str, path: &str) -> (r: Result<(usize, Vec<String>), RouterError>)
        ensures
            path@.len() == 0 ==> r matches Err(RouterError::InvalidPath),
            path@.len() > 0 && !has_method(self@, method@) ==> (r matches Err(
                RouterError::MethodNotAllowed(m),
            ) && m@ == method@),
            path@.len() > 0 && has_method(self@, method@) && !any_match(self@, method@, path@)
                ==> (r matches Err(RouterError::NotFound(p)) && p@ == path@),
            path@.len() > 0 && any_match(self@, method@, path@) ==> (r matches Ok((i, params))
                && first_match(self@, method@, path@, i as int) && strings_view(params@)
                == route_params(self@, i as int, path@)),
    {
        if path.is_empty() {
            return Err(RouterError::InvalidPath);
        }
        let wanted = method.to_owned();
        let mut seen_method = false;
        let mut i: usize = 0;
        while i < self.routes.len()
            invariant
                0 <= i <= self.routes@.len(),
                path@.len() > 0,
                wanted@ == method@,
                self@.len() == self.routes@.len(),
                seen_method <==> exists|j: int| 0 <= j < i && #[trigger] self@[j].method == method@,
                forall|j: int| 0 <= j < i ==> !route_matches(#[trigger] self@[j], method@, path@),
            decreases self.routes@.len() - i,
        {
            let route = &self.routes[i];
            assert(self@[i as int] == route@);
            let same = route.method == wanted;
            assert(same == (self@[i as int].method == method@));
            let ghost was_seen = seen_method;
            if same {
                seen_method = true;
                match captures(&route.pattern, path) {
                    Some(groups) => {
                        let params = params_from(groups);
                        assert(first_match(self@, method@, path@, i as int));
                        return Ok((i, params));
                    },
                    None => {},
                }
            }
            proof {
                if same {
                    assert(self@[i as int].method == method@);
                } else {
                    assert(seen_method == was_seen);
                }
            }
            i = i + 1;
        }
        if !seen_method {
            Err(RouterError::MethodNotAllowed(wanted))
        } else {
            Err(RouterError::NotFound(path.to_owned()))
        }
    }

    /// Matches `method` and `path` against the routes: the handler of the
    /// first-registered route that serves them, with the pattern's capture
    /// groups (the whole match left out); `InvalidPath` for an empty path,
    /// `MethodNotAllowed` when no route has the method, else `NotFound`.
    pub fn match_route(&self, method: &str, path: &str) -> (r: Result<(&H, Vec<String>), RouterError>)
        ensures
            path@.len() == 0 ==> r matches Err(RouterError::InvalidPath),
            path@.len() > 0 && !has_method(self@, method@) ==> (r matches Err(
                RouterError::MethodNotAllowed(m),
            ) && m@ == method@),
            path@.len() > 0 && has_method(self@, method@) && !any_match(self@, method@, path@)
                ==> (r matches Err(RouterError::NotFound(p)) && p@ == path@),
            path@.len() > 0 && any_match(self@, method@, path@) ==> exists|i: int|
                #![trigger first_match(self@, method@, path@, i)]
                first_match(self@, method@, path@, i) && (r matches Ok((h, params)) && *h
                    == self@[i].handler && strings_view(params@) == route_params(self@, i, path@)),
    {
        match self.find_route(method, path) {
            Ok((i, params)) => {
                assert(self@[i as int] == self.routes@[i as int]@);
                Ok((&self.routes[i].handler, params))
            },
            Err(e) => Err(e),
        }
    }
}


impl<H: Handler> Router<H> {
    /// Routes `method` and `path` and answers with a response, always `Ok`:
    /// the matched handler's response, called with the captured parameters
    /// (under the route's fixed status, when it has one), or a canned JSON
    /// response: 400 for an empty path, 405 for a method without routes,
    /// 404 when no pattern matches.
    pub fn handle(&self, method: &str, path: &str) -> (r: Result<Response, RouterError>)
        ensures
            r is Ok,
            path@.len() == 0 ==> (r matches Ok(rsp) && rsp@ == canned_view(400)),
            path@.len() > 0 && !has_method(self@, method@) ==> (r matches Ok(rsp) && rsp@
                == canned_view(405)),
            path@.len() > 0 && has_method(self@, method@) && !any_match(self@, method@, path@)
                ==> (r matches Ok(rsp) && rsp@ == canned_view(404)),
            forall|i: int|
                path@.len() > 0 && #[trigger] first_match(self@, method@, path@, i) ==> (r matches Ok(
                    rsp,
                ) && route_response(self@[i], route_params(self@, i, path@), rsp@)),
    {
        match self.find_route(method, path) {
            Ok((i, params)) => {
                let route = &self.routes[i];
                assert(self@[i as int] == route@);
                let rsp = route.handler.invoke(params);
                match route.status {
                    Some(s) => {
                        let body = slice_to_vec(rsp.get_body());
                        let fixed = Response::builder().status(s).body(body);
                        proof {
                            assert forall|j: int| #[trigger]
                                first_match(self@, method@, path@, j) implies j == i by {
                                if j < i {
                                    assert(!route_matches(self@[j], method@, path@));
                                }
                                if j > i {
                                    assert(!route_matches(self@[i as int], method@, path@));
                                }
                            }
                            assert(fixed@.headers =~= Seq::<Seq<char>>::empty());
                            assert(route.handler.responds(route_params(self@, i as int, path@), rsp@));
                            assert(fixed@.body == rsp@.body);
                            assert(self@[i as int].status == Some(s));
                            assert(self@[i as int].handler.responds(route_params(self@, i as int, path@), rsp@));
                            assert(fixed@ == (ResponseView {
                                status: s,
                                reason: reason_phrase(s),
                                headers: Seq::empty(),
                                body: rsp@.body,
                            }));
                            assert(route_response(self@[i as int], route_params(self@, i as int, path@), fixed@));
                        }
                        Ok(fixed)
                    },
                    None => {
                        proof {
                            assert forall|j: int| #[trigger]
                                first_match(self@, method@, path@, j) implies j == i by {
                                if j < i {
                                    assert(!route_matches(self@[j], method@, path@));
                                }
                                if j > i {
                                    assert(!route_matches(self@[i as int], method@, path@));
                                }
                            }
                            assert(route.handler.responds(route_params(self@, i as int, path@), rsp@));
                            assert(route_response(self@[i as int], route_params(self@, i as int, path@), rsp@));
                        }
                        Ok(rsp)
                    },
                }
            },
            Err(e) => {
                proof {
                    assert forall|j: int|
                        path@.len() > 0 implies !#[trigger] first_match(self@, method@, path@, j) by {
                        if path@.len() > 0 && first_match(self@, method@, path@, j) {
                            assert(any_match(self@, method@, path@));
                            assert(has_method(self@, method@));
                        }
                    }
                }
                Ok(error_response(&e))
            },
        }
    }
}

impl<H> Router<H> {
    /// Registers `handler` for GET on a regular expression, with every
    /// response given `status` in place of the handler's own.
    pub fn get_with_status(&mut self, pattern: &str, status: usize, handler: H) -> (r: Result<
        &mut Self,
        RouterError,
    >)
        ensures
            regex_compiles(anchored_source(pattern@, MatchType::Regex)) ==> (r matches Ok(s) && (*s)@
                == registered(old(self)@, "GET"@, pattern@, MatchType::Regex, Some(status), handler)
                && *final(self) == *final(s)),
            !regex_compiles(anchored_source(pattern@, MatchType::Regex)) ==> (r matches Err(
                RouterError::InvalidPattern(p),
            ) && p@ == pattern@ && final(self)@ == old(self)@),
    {
        match self.add_route("GET", pattern, MatchType::Regex, Some(status), handler) {
            Ok(()) => Ok(self),
            Err(e) => Err(e),
        }
    }

    /// Registers `handler` for GET on a regular expression.
    pub fn get(&mut self, pattern: &str, handler: H) -> (r: Result<&mut Self, RouterError>)
        ensures
            regex_compiles(anchored_source(pattern@, MatchType::Regex)) ==> (r matches Ok(s) && (*s)@
                == registered(old(self)@, "GET"@, pattern@, MatchType::Regex, None, handler)
                && *final(self) == *final(s)),
            !regex_compiles(anchored_source(pattern@, MatchType::Regex)) ==> (r matches Err(
                RouterError::InvalidPattern(p),
            ) && p@ == pattern@ && final(self)@ == old(self)@),
    {
        self.route("GET", pattern, MatchType::Regex, handler)
    }

    /// Registers `handler` for POST on a regular expression.
    pub fn post(&mut self, pattern: &str, handler: H) -> (r: Result<&mut Self, RouterError>)
        ensures
            regex_compiles(anchored_source(pattern@, MatchType::Regex)) ==> (r matches Ok(s) && (*s)@
                == registered(old(self)@, "POST"@, pattern@, MatchType::Regex, None, handler)
                && *final(self) == *final(s)),
            !regex_compiles(anchored_source(pattern@, MatchType::Regex)) ==> (r matches Err(
                RouterError::InvalidPattern(p),
            ) && p@ == pattern@ && final(self)@ == old(self)@),
    {
        self.route("POST", pattern, MatchType::Regex, handler)
    }

    /// Registers `handler` for PUT on a regular expression.
    pub fn put(&mut self, pattern: &str, handler: H) -> (r: Result<&mut Self, RouterError>)
        ensures
            regex_compiles(anchored_source(pattern@, MatchType::Regex)) ==> (r matches Ok(s) && (*s)@
                == registered(old(self)@, "PUT"@, pattern@, MatchType::Regex, None, handler)
                && *final(self) == *final(s)),
            !regex_compiles(anchored_source(pattern@, MatchType::Regex)) ==> (r matches Err(
                RouterError::InvalidPattern(p),
            ) && p@ == pattern@ && final(self)@ == old(self)@),
    {
        self.route("PUT", pattern, MatchType::Regex, handler)
    }

    /// Registers `handler` for DELETE on a regular expression.
    pub fn delete(&mut self, pattern: &str, handler: H) -> (r: Result<&mut Self, RouterError>)
        ensures
            regex_compiles(anchored_source(pattern@, MatchType::Regex)) ==> (r matches Ok(s) && (*s)@
                == registered(old(self)@, "DELETE"@, pattern@, MatchType::Regex, None, handler)
                && *final(self) == *final(s)),
            !regex_compiles(anchored_source(pattern@, MatchType::Regex)) ==> (r matches Err(
                RouterError::InvalidPattern(p),
            ) && p@ == pattern@ && final(self)@ == old(self)@),
    {
        self.route("DELETE", pattern, MatchType::Regex, handler)
    }

    /// Registers `handler` for PATCH on a regular expression.
    pub fn patch(&mut self, pattern: &str, handler: H) -> (r: Result<&mut Self, RouterError>)
        ensures
            regex_compiles(anchored_source(pattern@, MatchType::Regex)) ==> (r matches Ok(s) && (*s)@
                == registered(old(self)@, "PATCH"@, pattern@, MatchType::Regex, None, handler)
                && *final(self) == *final(s)),
            !regex_compiles(anchored_source(pattern@, MatchType::Regex)) ==> (r matches Err(
                RouterError::InvalidPattern(p),
            ) && p@ == pattern@ && final(self)@ == old(self)@),
    {
        self.route("PATCH", pattern, MatchType::Regex, handler)
    }

    /// Registers `handler` for HEAD on a regular expression.
    pub fn head(&mut self, pattern: &str, handler: H) -> (r: Result<&mut Self, RouterError>)
        ensures
            regex_compiles(anchored_source(pattern@, MatchType::Regex)) ==> (r matches Ok(s) && (*s)@
                == registered(old(self)@, "HEAD"@, pattern@, MatchType::Regex, None, handler)
                && *final(self) == *final(s)),
            !regex_compiles(anchored_source(pattern@, MatchType::Regex)) ==> (r matches Err(
                RouterError::InvalidPattern(p),
            ) && p@ == pattern@ && final(self)@ == old(self)@),
    {
        self.route("HEAD", pattern, MatchType::Regex, handler)
    }

    /// Registers `handler` for OPTIONS on a regular expression.
    pub fn options(&mut self, pattern: &str, handler: H) -> (r: Result<&mut Self, RouterError>)
        ensures
            regex_compiles(anchored_source(pattern@, MatchType::Regex)) ==> (r matches Ok(s) && (*s)@
                == registered(old(self)@, "OPTIONS"@, pattern@, MatchType::Regex, None, handler)
                && *final(self) == *final(s)),
            !regex_compiles(anchored_source(pattern@, MatchType::Regex)) ==> (r matches Err(
                RouterError::InvalidPattern(p),
            ) && p@ == pattern@ && final(self)@ == old(self)@),
    {
        self.route("OPTIONS", pattern, MatchType::Regex, handler)
    }
}

impl<H: Clone> Router<H> {
    /// Registers a copy of `handler` on a regular expression for each of
    /// `methods`, in order.
    pub fn any(&mut self, methods: &[&str], pattern: &str, handler: H) -> (r: Result<
        &mut Self,
        RouterError,
    >)
        ensures
            methods@.len() == 0 ==> (r matches Ok(s) && (*s)@ == old(self)@ && *final(self)
                == *final(s)),
            regex_compiles(anchored_source(pattern@, MatchType::Regex)) ==> (r matches Ok(s)
                && *final(self) == *final(s) && (*s)@.len() == old(self)@.len() + methods@.len()
                && (*s)@.subrange(0, old(self)@.len() as int) == old(self)@
                && forall|k: int|
                0 <= k < methods@.len() ==> {
                    let rt = #[trigger] (*s)@[old(self)@.len() + k];
                    rt.method == methods@[k]@ && rt.source == anchored_source(
                        pattern@,
                        MatchType::Regex,
                    ) && rt.match_type == MatchType::Regex && rt.status is None
                }),
            !regex_compiles(anchored_source(pattern@, MatchType::Regex)) && methods@.len() > 0 ==> (
            r matches Err(RouterError::InvalidPattern(p)) && p@ == pattern@ && final(self)@ == old(
                self,
            )@),
    {
        let ghost start = self@;
        let mut k: usize = 0;
        while k < methods.len()
            invariant
                0 <= k <= methods@.len(),
                start == old(self)@,
                k > 0 ==> regex_compiles(anchored_source(pattern@, MatchType::Regex)),
                self@.len() == start.len() + k,
                self@.subrange(0, start.len() as int) == start,
                forall|j: int|
                    0 <= j < k ==> {
                        let rt = #[trigger] self@[start.len() + j];
                        rt.method == methods@[j]@ && rt.source == anchored_source(
                            pattern@,
                            MatchType::Regex,
                        ) && rt.match_type == MatchType::Regex && rt.status is None
                    },
            decreases methods@.len() - k,
        {
            let ghost before = self@;
            match self.add_route(methods[k], pattern, MatchType::Regex, None, handler.clone()) {
                Ok(()) => {},
                Err(e) => {
                    assert(self@.subrange(0, start.len() as int) =~= self@);
                    return Err(e);
                },
            }
            proof {
                assert(self@.subrange(0, start.len() as int) =~= before.subrange(0, start.len() as int));
                assert forall|j: int| 0 <= j < k + 1 implies {
                    let rt = #[trigger] self@[start.len() + j];
                    rt.method == methods@[j]@ && rt.source == anchored_source(
                        pattern@,
                        MatchType::Regex,
                    ) && rt.match_type == MatchType::Regex && rt.status is None
                } by {
                    if j < k {
                        assert(self@[start.len() + j] == before[start.len() + j]);
                    }
                }
            }
            k = k + 1;
        }
        proof {
            if methods@.len() == 0 {
                assert(self@ =~= start);
            }
        }
        Ok(self)
    }
}


/// A route that serves a non-empty path under its method, when no earlier
/// route of that method serves it, is the one matching selects: matching
/// then hands back this route's handler and the groups its pattern captures
/// from the path.
pub proof fn lemma_matching_route_is_selected<H>(
    rs: Seq<RouteView<H>>,
    method: Seq<char>,
    path: Seq<char>,
    i: int,
)
    requires
        0 <= i < rs.len(),
        rs[i].method == method,
        regex_captures(rs[i].source, path) is Some,
        forall|j: int| 0 <= j < i ==> !route_matches(#[trigger] rs[j], method, path),
    ensures
        any_match(rs, method, path),
        first_match(rs, method, path, i),
        forall|k: int| #[trigger] first_match(rs, method, path, k) ==> k == i,
{
    assert(route_matches(rs[i], method, path));
    assert forall|k: int| #[trigger] first_match(rs, method, path, k) implies k == i by {
        if k > i {
            assert(!route_matches(rs[i], method, path));
        }
    }
}

/// Of two registrations under one method whose patterns both match a path,
/// the earlier is selected and the later never is (when no route registered
/// before them serves the path).
pub proof fn lemma_first_registered_wins<H>(
    rs: Seq<RouteView<H>>,
    method: Seq<char>,
    path: Seq<char>,
    first: Seq<char>,
    first_type: MatchType,
    first_handler: H,
    second: Seq<char>,
    second_type: MatchType,
    second_handler: H,
)
    requires
        regex_captures(anchored_source(first, first_type), path) is Some,
        regex_captures(anchored_source(second, second_type), path) is Some,
        !any_match(rs, method, path),
    ensures
        ({
            let both = registered(
                registered(rs, method, first, first_type, None, first_handler),
                method,
                second,
                second_type,
                None,
                second_handler,
            );
            &&& first_match(both, method, path, rs.len() as int)
            &&& both[rs.len() as int].handler == first_handler
            &&& !first_match(both, method, path, rs.len() + 1 as int)
        }),
{
    let both = registered(
        registered(rs, method, first, first_type, None, first_handler),
        method,
        second,
        second_type,
        None,
        second_handler,
    );
    assert forall|j: int| 0 <= j < rs.len() implies !route_matches(#[trigger] both[j], method, path) by {
        assert(both[j] == rs[j]);
        if route_matches(rs[j], method, path) {
            assert(any_match(rs, method, path));
        }
    }
    assert(route_matches(both[rs.len() as int], method, path));
}

} // verus!

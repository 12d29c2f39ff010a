//! The route table and the dispatch algorithm.  Routes are registered
//! through a [`RouteBuilder`] (so middleware can be attached before the route
//! becomes visible) and matched in registration order: the first route whose
//! method and path pattern fit the request wins.
use vstd::prelude::*;

verus! {

use vstd::string::*;
use crate::http::{Method, ReqView, RespView, Request, Response, not_found, not_found_view};
use crate::middleware::{chain_meaning, run_chain, IntoMiddlewares, Middleware, MiddlewareMeaning};
use crate::path::{last_slash, lemma_last_slash};

/// The specification side of a handler: its response as a function of the
/// request.  The default leaves the meaning arbitrary, so an implementation
/// outside any proof need only supply the executable side; an implementation
/// whose callers rely on its contract overrides it.
pub trait HandlerMeaning {
    open spec fn meaning(&self, req: ReqView) -> RespView {
        vstd::pervasive::arbitrary()
    }
}

/// A terminal request-to-response capability for one route.
pub trait Handler: HandlerMeaning {
    fn call(&self, req: Request) -> (r: Response)
        ensures
            r@ == self.meaning(req@),
    ;
}

/// How a route's registered path is matched against a request path.
#[derive(Clone)]
pub enum PathPattern {
    /// Matches exactly this path.
    Exact(String),
    /// Matches `prefix + "/" + segment` for any final segment without a `/`;
    /// the segment is parsed as an id by the handler, not by the matcher.
    IdSegment(String),
}

pub open spec fn pattern_matches(pat: PathPattern, path: Seq<char>) -> bool {
    match pat {
        PathPattern::Exact(p) => p@ == path,
        PathPattern::IdSegment(prefix) => last_slash(path) == prefix@.len() && path.take(
            prefix@.len() as int,
        ) == prefix@,
    }
}

impl PathPattern {
    /// Whether this pattern matches a request path.
    pub fn matches(&self, path: &String) -> (b: bool)
        ensures
            b == pattern_matches(*self, path@),
    {
        match self {
            PathPattern::Exact(p) => p.eq(path),
            PathPattern::IdSegment(prefix) => {
                let plen = prefix.as_str().unicode_len();
                match crate::path::find_last_slash(path.as_str()) {
                    None => false,
                    Some(i) => {
                        if i != plen {
                            false
                        } else {
                            proof {
                                lemma_last_slash(path@);
                            }
                            crate::path::prefix_eq(path.as_str(), prefix.as_str())
                        }
                    },
                }
            },
        }
    }
}

/// One registration: a method, a path pattern, a terminal handler, and the
/// ordered middleware wrapped around it.
#[derive(Clone)]
pub struct Route<H, M> {
    pub method: Method,
    pub pattern: PathPattern,
    pub handler: H,
    pub middlewares: Vec<M>,
}

pub open spec fn route_matches<H, M>(route: Route<H, M>, method: Method, path: Seq<char>) -> bool {
    route.method == method && pattern_matches(route.pattern, path)
}

/// An ordered collection of routes; registration order is significant, since
/// dispatch is first-match-wins.
#[derive(Clone)]
pub struct Router<H, M> {
    routes: Vec<Route<H, M>>,
}

impl<H, M> View for Router<H, M> {
    type V = Seq<Route<H, M>>;

    closed spec fn view(&self) -> Seq<Route<H, M>> {
        self.routes@
    }
}

/// The dispatch result for a request against a route list: the chain of the
/// first matching route applied to the request, or the fixed not-found
/// response when nothing matches.
pub open spec fn dispatch_meaning<H: HandlerMeaning, M: MiddlewareMeaning>(
    routes: Seq<Route<H, M>>,
    req: ReqView,
) -> RespView
    decreases routes.len(),
{
    if routes.len() == 0 {
        not_found_view()
    } else if route_matches(routes[0], req.method, req.path) {
        chain_meaning(routes[0].handler, routes[0].middlewares@)(req)
    } else {
        dispatch_meaning(routes.drop_first(), req)
    }
}

impl<H, M> Router<H, M> {
    /// A router with no routes.
    pub fn new() -> (r: Self)
        ensures
            r@ == Seq::<Route<H, M>>::empty(),
    {
        Router { routes: Vec::new() }
    }

    /// How many routes have been registered.
    pub fn route_count(&self) -> (n: usize)
        ensures
            n == self@.len(),
    {
        self.routes.len()
    }

    /// Starts registering a GET route; the route joins the router when the
    /// returned builder commits.
    pub fn get(&self, path: &str, handler: H) -> (b: RouteBuilder<H, M>)
        ensures
            b@ is Some,
            b@->0.method == Method::Get,
            b@->0.pattern is Exact && b@->0.pattern->Exact_0@ == path@,
            b@->0.handler == handler,
            b@->0.middlewares@.len() == 0,
    {
        RouteBuilder::with_pattern(Method::Get, PathPattern::Exact(String::from_str(path)), handler)
    }

    /// Starts registering a POST route.
    pub fn post(&self, path: &str, handler: H) -> (b: RouteBuilder<H, M>)
        ensures
            b@ is Some,
            b@->0.method == Method::Post,
            b@->0.pattern is Exact && b@->0.pattern->Exact_0@ == path@,
            b@->0.handler == handler,
            b@->0.middlewares@.len() == 0,
    {
        RouteBuilder::with_pattern(
            Method::Post,
            PathPattern::Exact(String::from_str(path)),
            handler,
        )
    }

    /// Starts registering a PUT route.
    pub fn put(&self, path: &str, handler: H) -> (b: RouteBuilder<H, M>)
        ensures
            b@ is Some,
            b@->0.method == Method::Put,
            b@->0.pattern is Exact && b@->0.pattern->Exact_0@ == path@,
            b@->0.handler == handler,
            b@->0.middlewares@.len() == 0,
    {
        RouteBuilder::with_pattern(Method::Put, PathPattern::Exact(String::from_str(path)), handler)
    }

    /// Starts registering a DELETE route.
    pub fn delete(&self, path: &str, handler: H) -> (b: RouteBuilder<H, M>)
        ensures
            b@ is Some,
            b@->0.method == Method::Delete,
            b@->0.pattern is Exact && b@->0.pattern->Exact_0@ == path@,
            b@->0.handler == handler,
            b@->0.middlewares@.len() == 0,
    {
        RouteBuilder::with_pattern(
            Method::Delete,
            PathPattern::Exact(String::from_str(path)),
            handler,
        )
    }
}

impl<H: Handler, M: Middleware> Router<H, M> {
    /// Dispatches a request: scans the routes in registration order, runs the
    /// chain of the first route whose method and pattern match, and returns
    /// the fixed not-found response when none does.
    pub fn handle(&self, req: Request) -> (r: Response)
        ensures
            r@ == dispatch_meaning(self@, req@),
    {
        let n = self.routes.len();
        let mut i: usize = 0;
        proof {
            assert(self@.skip(0) =~= self@);
        }
        while i < n
            invariant
                i <= n,
                n == self@.len(),
                dispatch_meaning(self@, req@) == dispatch_meaning(self@.skip(i as int), req@),
            decreases n - i,
        {
            let route = &self.routes[i];
            proof {
                assert(self@.skip(i as int)[0] == self@[i as int]);
                assert(self@.skip(i as int).drop_first() =~= self@.skip(i as int + 1));
            }
            if route.method == req.method && route.pattern.matches(&req.path) {
                return run_chain(&route.handler, route.middlewares.as_slice(), req);
            }
            i = i + 1;
        }
        proof {
            assert(self@.skip(n as int) =~= Seq::<Route<H, M>>::empty());
        }
        not_found()
    }
}

/// What committing a builder does to a route list: appends the pending route
/// if one is still pending, and otherwise leaves the list alone.
pub open spec fn register_effect<H, M>(
    pending: Option<Route<H, M>>,
    routes: Seq<Route<H, M>>,
) -> Seq<Route<H, M>> {
    match pending {
        Some(r) => routes.push(r),
        None => routes,
    }
}

/// A registration session: owns one pending route until it is committed into
/// a router.  The pending route is committed at most once; committing a
/// second time is a no-op.
#[must_use]
pub struct RouteBuilder<H, M> {
    pending: Option<Route<H, M>>,
}

impl<H, M> View for RouteBuilder<H, M> {
    type V = Option<Route<H, M>>;

    closed spec fn view(&self) -> Option<Route<H, M>> {
        self.pending
    }
}

impl<H, M> RouteBuilder<H, M> {
    pub(crate) fn with_pattern(method: Method, pattern: PathPattern, handler: H) -> (b: Self)
        ensures
            b@ is Some,
            b@->0.method == method,
            b@->0.pattern == pattern,
            b@->0.handler == handler,
            b@->0.middlewares@.len() == 0,
    {
        RouteBuilder {
            pending: Some(Route { method, pattern, handler, middlewares: Vec::new() }),
        }
    }

    /// Replaces the pending route's middleware list with the given ones, in
    /// the given order.  Calling this again overwrites rather than appends.
    pub fn middlewares<S: IntoMiddlewares<M>>(self, source: S) -> (b: Self)
        requires
            self@ is Some,
        ensures
            b@ is Some,
            b@->0.method == self@->0.method,
            b@->0.pattern == self@->0.pattern,
            b@->0.handler == self@->0.handler,
            b@->0.middlewares@ == source.middleware_seq(),
    {
        let mut route = self.pending.unwrap();
        route.middlewares = source.into_middlewares();
        RouteBuilder { pending: Some(route) }
    }

    /// Commits the pending route into the router.  The first call appends the
    /// route; once committed, further calls change nothing.
    pub fn register(&mut self, router: &mut Router<H, M>)
        ensures
            final(self)@ is None,
            final(router)@ == register_effect(old(self)@, old(router)@),
    {
        match self.pending.take() {
            Some(route) => router.routes.push(route),
            None => (),
        }
    }
}

/// Exactly-once registration law: committing a pending route appends exactly
/// that one route, and committing an already-committed builder (whose pending
/// route is gone) leaves the route list exactly as it was, so no route is
/// ever appended twice.
pub proof fn lemma_register_exactly_once<H, M>(
    pending: Option<Route<H, M>>,
    routes: Seq<Route<H, M>>,
)
    ensures
        pending is Some ==> register_effect(pending, routes) == routes.push(pending->0),
        pending is Some ==> register_effect(pending, routes).len() == routes.len() + 1,
        pending is None ==> register_effect(pending, routes) == routes,
        register_effect(None::<Route<H, M>>, register_effect(pending, routes)) == register_effect(
            pending,
            routes,
        ),
{
}

/// First-match law: dispatch returns the chain of the earliest matching
/// route, whatever routes come after it.
pub proof fn lemma_dispatch_first_match<H: HandlerMeaning, M: MiddlewareMeaning>(
    routes: Seq<Route<H, M>>,
    req: ReqView,
    i: int,
)
    requires
        0 <= i < routes.len(),
        route_matches(routes[i], req.method, req.path),
        forall|j: int| 0 <= j < i ==> !route_matches(routes[j], req.method, req.path),
    ensures
        dispatch_meaning(routes, req) == chain_meaning(routes[i].handler, routes[i].middlewares@)(
            req,
        ),
    decreases i,
{
    if i > 0 {
        lemma_dispatch_first_match(routes.drop_first(), req, i - 1);
        assert(routes.drop_first()[i - 1] == routes[i]);
    }
}

/// Matched-dispatch law: when exactly one registered route matches the
/// request's method and path — as with unique (method, path) pairs — dispatch
/// returns what that route's chain produces; with no middleware attached,
/// that is exactly the terminal handler's response.
pub proof fn lemma_dispatch_unique_match<H: HandlerMeaning, M: MiddlewareMeaning>(
    routes: Seq<Route<H, M>>,
    req: ReqView,
    i: int,
)
    requires
        0 <= i < routes.len(),
        route_matches(routes[i], req.method, req.path),
        forall|j: int|
            0 <= j < routes.len() && j != i ==> !route_matches(routes[j], req.method, req.path),
    ensures
        dispatch_meaning(routes, req) == chain_meaning(routes[i].handler, routes[i].middlewares@)(
            req,
        ),
        routes[i].middlewares@.len() == 0 ==> dispatch_meaning(routes, req)
            == routes[i].handler.meaning(req),
{
    lemma_dispatch_first_match(routes, req, i);
}

/// Not-found law: when no registered route matches the request's method and
/// path, dispatch returns the fixed not-found response, and no route's chain
/// enters into the result at all.
pub proof fn lemma_dispatch_no_match<H: HandlerMeaning, M: MiddlewareMeaning>(
    routes: Seq<Route<H, M>>,
    req: ReqView,
)
    requires
        forall|j: int| 0 <= j < routes.len() ==> !route_matches(routes[j], req.method, req.path),
    ensures
        dispatch_meaning(routes, req) == not_found_view(),
    decreases routes.len(),
{
    if routes.len() > 0 {
        lemma_dispatch_no_match(routes.drop_first(), req);
    }
}

} // verus!

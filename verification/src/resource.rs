//! The declarative CRUD-resource expander: one capability object exposing
//! get/create/update/delete becomes four routes on a router.
use vstd::prelude::*;

verus! {

use std::sync::Arc;
use vstd::string::*;
use crate::http::{bad_request, bad_request_view, Method, ReqView, RespView, Request, Response};
use crate::middleware::{chain_meaning, Middleware, MiddlewareMeaning};
use crate::path::{
    last_slash, lemma_last_slash_at, path_id, path_id_of, spec_parse_id, trailing_segment,
};
use crate::router::{
    dispatch_meaning, route_matches, Handler, HandlerMeaning, PathPattern, Route, RouteBuilder,
    Router,
};

/// A CRUD capability: the backend the four generated routes delegate to.
/// Each exec method must return exactly what the matching spec function
/// says for its arguments.  The spec functions default to arbitrary values,
/// so an implementation outside any proof need only supply the executable
/// methods; one whose callers rely on its contract overrides them.
pub trait Resource {
    open spec fn get_meaning(&self, id: i32) -> RespView {
        vstd::pervasive::arbitrary()
    }

    open spec fn create_meaning(&self, data: Seq<char>) -> RespView {
        vstd::pervasive::arbitrary()
    }

    open spec fn update_meaning(&self, id: i32, data: Seq<char>) -> RespView {
        vstd::pervasive::arbitrary()
    }

    open spec fn delete_meaning(&self, id: i32) -> RespView {
        vstd::pervasive::arbitrary()
    }

    fn get(&self, id: i32) -> (r: Response)
        ensures
            r@ == self.get_meaning(id),
    ;

    fn create(&self, data: String) -> (r: Response)
        ensures
            r@ == self.create_meaning(data@),
    ;

    fn update(&self, id: i32, data: String) -> (r: Response)
        ensures
            r@ == self.update_meaning(id, data@),
    ;

    fn delete(&self, id: i32) -> (r: Response)
        ensures
            r@ == self.delete_meaning(id),
    ;
}

/// Which of the four capability methods a generated route calls.
#[derive(Clone, Copy, Debug, PartialEq, Eq, Structural)]
pub enum ResourceAction {
    Get,
    Create,
    Update,
    Delete,
}

/// The handler a generated route carries: it adapts HTTP dispatch to one
/// capability method, parsing the id from the request path's trailing
/// segment where the action needs one, and substituting an empty body where
/// the transport could not materialize one.
#[derive(Clone)]
pub struct ResourceHandler<R> {
    pub action: ResourceAction,
    pub resource: Arc<R>,
}

/// The request body as the create/update adapters see it: the materialized
/// body, or empty when the transport failed to read one.
pub open spec fn body_or_empty(body: Option<Seq<char>>) -> Seq<char> {
    match body {
        Some(b) => b,
        None => Seq::empty(),
    }
}

fn body_string(body: Option<String>) -> (s: String)
    ensures
        s@ == body_or_empty(
            match body {
                Some(b) => Some(b@),
                None => None,
            },
        ),
{
    match body {
        Some(b) => b,
        None => String::new(),
    }
}

impl<R: Resource> HandlerMeaning for ResourceHandler<R> {
    open spec fn meaning(&self, req: ReqView) -> RespView {
        match self.action {
            ResourceAction::Get => match path_id(req.path) {
                Some(id) => (*self.resource).get_meaning(id as i32),
                None => bad_request_view(),
            },
            ResourceAction::Create => (*self.resource).create_meaning(body_or_empty(req.body)),
            ResourceAction::Update => match path_id(req.path) {
                Some(id) => (*self.resource).update_meaning(id as i32, body_or_empty(req.body)),
                None => bad_request_view(),
            },
            ResourceAction::Delete => match path_id(req.path) {
                Some(id) => (*self.resource).delete_meaning(id as i32),
                None => bad_request_view(),
            },
        }
    }
}

impl<R: Resource> Handler for ResourceHandler<R> {
    fn call(&self, req: Request) -> (r: Response) {
        let Request { method: _, path, body } = req;
        let res: &R = &*self.resource;
        match self.action {
            ResourceAction::Get => match path_id_of(&path) {
                Some(id) => res.get(id),
                None => bad_request(),
            },
            ResourceAction::Create => res.create(body_string(body)),
            ResourceAction::Update => match path_id_of(&path) {
                Some(id) => res.update(id, body_string(body)),
                None => bad_request(),
            },
            ResourceAction::Delete => match path_id_of(&path) {
                Some(id) => res.delete(id),
                None => bad_request(),
            },
        }
    }
}

/// A route's endpoint in a router that mixes manually registered routes
/// with resource-generated ones: either a plain handler or one of the four
/// capability adapters.
#[derive(Clone)]
pub enum Endpoint<H, R> {
    Plain(H),
    Resource(ResourceHandler<R>),
}

impl<H: HandlerMeaning, R: Resource> HandlerMeaning for Endpoint<H, R> {
    open spec fn meaning(&self, req: ReqView) -> RespView {
        match self {
            Endpoint::Plain(h) => h.meaning(req),
            Endpoint::Resource(rh) => rh.meaning(req),
        }
    }
}

impl<H: Handler, R: Resource> Handler for Endpoint<H, R> {
    fn call(&self, req: Request) -> (r: Response) {
        match self {
            Endpoint::Plain(h) => h.call(req),
            Endpoint::Resource(rh) => rh.call(req),
        }
    }
}

/// What the four routes generated for a capability look like, in
/// registration order: GET and PUT and DELETE on the id-bearing pattern,
/// POST on the bare base path, all without middleware and all backed by the
/// same capability.
pub open spec fn is_resource_routes<H, R: Resource, M>(
    routes: Seq<Route<Endpoint<H, R>, M>>,
    base: Seq<char>,
    res: R,
) -> bool {
    &&& routes.len() == 4
    &&& routes[0].method == Method::Get
    &&& routes[0].pattern is IdSegment && routes[0].pattern->IdSegment_0@ == base
    &&& routes[0].handler is Resource && routes[0].handler->Resource_0.action
        == ResourceAction::Get
    &&& routes[1].method == Method::Post
    &&& routes[1].pattern is Exact && routes[1].pattern->Exact_0@ == base
    &&& routes[1].handler is Resource && routes[1].handler->Resource_0.action
        == ResourceAction::Create
    &&& routes[2].method == Method::Put
    &&& routes[2].pattern is IdSegment && routes[2].pattern->IdSegment_0@ == base
    &&& routes[2].handler is Resource && routes[2].handler->Resource_0.action
        == ResourceAction::Update
    &&& routes[3].method == Method::Delete
    &&& routes[3].pattern is IdSegment && routes[3].pattern->IdSegment_0@ == base
    &&& routes[3].handler is Resource && routes[3].handler->Resource_0.action
        == ResourceAction::Delete
    &&& forall|k: int| 0 <= k < 4 ==> *(#[trigger] routes[k]).handler->Resource_0.resource == res
    &&& forall|k: int| 0 <= k < 4 ==> (#[trigger] routes[k]).middlewares@.len() == 0
}

impl<H, R: Resource, M> Router<Endpoint<H, R>, M> {
    /// Registers the four CRUD routes for `resource` under `path`, through
    /// the same builder mechanism as manual registration.
    pub fn resource(&mut self, path: &str, resource: R)
        ensures
            final(self)@.len() == old(self)@.len() + 4,
            forall|k: int| 0 <= k < old(self)@.len() ==> final(self)@[k] == old(self)@[k],
            is_resource_routes(
                final(self)@.skip(old(self)@.len() as int),
                path@,
                resource,
            ),
    {
        let res = Arc::new(resource);
        let mut b: RouteBuilder<Endpoint<H, R>, M> = RouteBuilder::with_pattern(
            Method::Get,
            PathPattern::IdSegment(String::from_str(path)),
            Endpoint::Resource(ResourceHandler { action: ResourceAction::Get, resource: res.clone() }),
        );
        b.register(self);
        let mut b: RouteBuilder<Endpoint<H, R>, M> = RouteBuilder::with_pattern(
            Method::Post,
            PathPattern::Exact(String::from_str(path)),
            Endpoint::Resource(
                ResourceHandler { action: ResourceAction::Create, resource: res.clone() },
            ),
        );
        b.register(self);
        let mut b: RouteBuilder<Endpoint<H, R>, M> = RouteBuilder::with_pattern(
            Method::Put,
            PathPattern::IdSegment(String::from_str(path)),
            Endpoint::Resource(
                ResourceHandler { action: ResourceAction::Update, resource: res.clone() },
            ),
        );
        b.register(self);
        let mut b: RouteBuilder<Endpoint<H, R>, M> = RouteBuilder::with_pattern(
            Method::Delete,
            PathPattern::IdSegment(String::from_str(path)),
            Endpoint::Resource(ResourceHandler { action: ResourceAction::Delete, resource: res }),
        );
        b.register(self);
    }
}

/// The shape of a request path aimed at an id-bearing resource route: the
/// base path, a `/`, and a final segment with no `/` in it.
pub proof fn lemma_id_path_facts(base: Seq<char>, seg: Seq<char>)
    requires
        forall|i: int| 0 <= i < seg.len() ==> seg[i] != '/',
    ensures
        last_slash(base + seq!['/'] + seg) == base.len(),
        (base + seq!['/'] + seg).take(base.len() as int) == base,
        trailing_segment(base + seq!['/'] + seg) == seg,
{
    let path = base + seq!['/'] + seg;
    assert(path[base.len() as int] == '/');
    assert forall|k: int| base.len() < k < path.len() implies path[k] != '/' by {
        assert(path[k] == seg[k - base.len() - 1]);
    }
    lemma_last_slash_at(path, base.len() as int);
    assert(path.take(base.len() as int) =~= base);
    assert(trailing_segment(path) =~= seg);
}

/// Resource expansion law, GET: against the four routes generated for a
/// capability under `base`, a GET request for `base + "/" + seg`, where
/// `seg` parses as the id `id`, is answered by the capability's `get`.
pub proof fn lemma_resource_dispatch_get<H: HandlerMeaning, R: Resource, M: MiddlewareMeaning>(
    routes: Seq<Route<Endpoint<H, R>, M>>,
    base: Seq<char>,
    res: R,
    seg: Seq<char>,
    id: i32,
    req: ReqView,
)
    requires
        is_resource_routes(routes, base, res),
        req.method == Method::Get,
        req.path == base + seq!['/'] + seg,
        forall|i: int| 0 <= i < seg.len() ==> seg[i] != '/',
        spec_parse_id(seg) == Some(id as int),
    ensures
        dispatch_meaning(routes, req) == res.get_meaning(id),
{
    lemma_id_path_facts(base, seg);
    assert(route_matches(routes[0], req.method, req.path));
    assert(dispatch_meaning(routes, req) == chain_meaning(
        routes[0].handler,
        routes[0].middlewares@,
    )(req));
    assert(path_id(req.path) == Some(id as int));
    assert(*(routes[0].handler->Resource_0.resource) == res);
}

/// Resource expansion law, POST: a POST request for the bare `base` path is
/// answered by the capability's `create`, on the materialized body (empty
/// when the transport could not read one).
pub proof fn lemma_resource_dispatch_post<H: HandlerMeaning, R: Resource, M: MiddlewareMeaning>(
    routes: Seq<Route<Endpoint<H, R>, M>>,
    base: Seq<char>,
    res: R,
    req: ReqView,
)
    requires
        is_resource_routes(routes, base, res),
        req.method == Method::Post,
        req.path == base,
    ensures
        dispatch_meaning(routes, req) == res.create_meaning(body_or_empty(req.body)),
{
    assert(!route_matches(routes[0], req.method, req.path));
    assert(routes.drop_first()[0] == routes[1]);
    assert(route_matches(routes[1], req.method, req.path));
    assert(dispatch_meaning(routes, req) == dispatch_meaning(routes.drop_first(), req));
    assert(dispatch_meaning(routes, req) == chain_meaning(
        routes[1].handler,
        routes[1].middlewares@,
    )(req));
    assert(*(routes[1].handler->Resource_0.resource) == res);
}

/// Resource expansion law, PUT: a PUT request for `base + "/" + seg`, where
/// `seg` parses as the id `id`, is answered by the capability's `update` on
/// that id and the materialized body.
pub proof fn lemma_resource_dispatch_put<H: HandlerMeaning, R: Resource, M: MiddlewareMeaning>(
    routes: Seq<Route<Endpoint<H, R>, M>>,
    base: Seq<char>,
    res: R,
    seg: Seq<char>,
    id: i32,
    req: ReqView,
)
    requires
        is_resource_routes(routes, base, res),
        req.method == Method::Put,
        req.path == base + seq!['/'] + seg,
        forall|i: int| 0 <= i < seg.len() ==> seg[i] != '/',
        spec_parse_id(seg) == Some(id as int),
    ensures
        dispatch_meaning(routes, req) == res.update_meaning(id, body_or_empty(req.body)),
{
    lemma_id_path_facts(base, seg);
    assert(!route_matches(routes[0], req.method, req.path));
    assert(!route_matches(routes[1], req.method, req.path));
    assert(routes.drop_first()[0] == routes[1]);
    assert(routes.drop_first().drop_first()[0] == routes[2]);
    assert(route_matches(routes[2], req.method, req.path));
    assert(dispatch_meaning(routes, req) == dispatch_meaning(routes.drop_first(), req));
    assert(dispatch_meaning(routes.drop_first(), req) == dispatch_meaning(
        routes.drop_first().drop_first(),
        req,
    ));
    assert(dispatch_meaning(routes, req) == chain_meaning(
        routes[2].handler,
        routes[2].middlewares@,
    )(req));
    assert(path_id(req.path) == Some(id as int));
    assert(*(routes[2].handler->Resource_0.resource) == res);
}

/// Resource expansion law, DELETE: a DELETE request for `base + "/" + seg`,
/// where `seg` parses as the id `id`, is answered by the capability's
/// `delete`.
pub proof fn lemma_resource_dispatch_delete<H: HandlerMeaning, R: Resource, M: MiddlewareMeaning>(
    routes: Seq<Route<Endpoint<H, R>, M>>,
    base: Seq<char>,
    res: R,
    seg: Seq<char>,
    id: i32,
    req: ReqView,
)
    requires
        is_resource_routes(routes, base, res),
        req.method == Method::Delete,
        req.path == base + seq!['/'] + seg,
        forall|i: int| 0 <= i < seg.len() ==> seg[i] != '/',
        spec_parse_id(seg) == Some(id as int),
    ensures
        dispatch_meaning(routes, req) == res.delete_meaning(id),
{
    lemma_id_path_facts(base, seg);
    assert(!route_matches(routes[0], req.method, req.path));
    assert(!route_matches(routes[1], req.method, req.path));
    assert(!route_matches(routes[2], req.method, req.path));
    assert(routes.drop_first()[0] == routes[1]);
    assert(routes.drop_first().drop_first()[0] == routes[2]);
    assert(routes.drop_first().drop_first().drop_first()[0] == routes[3]);
    assert(route_matches(routes[3], req.method, req.path));
    assert(dispatch_meaning(routes, req) == dispatch_meaning(routes.drop_first(), req));
    assert(dispatch_meaning(routes.drop_first(), req) == dispatch_meaning(
        routes.drop_first().drop_first(),
        req,
    ));
    assert(dispatch_meaning(routes.drop_first().drop_first(), req) == dispatch_meaning(
        routes.drop_first().drop_first().drop_first(),
        req,
    ));
    assert(dispatch_meaning(routes, req) == chain_meaning(
        routes[3].handler,
        routes[3].middlewares@,
    )(req));
    assert(path_id(req.path) == Some(id as int));
    assert(*(routes[3].handler->Resource_0.resource) == res);
}

} // verus!

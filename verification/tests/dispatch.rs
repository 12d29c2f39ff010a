use std::sync::atomic::{AtomicUsize, Ordering};
use std::sync::Arc;

use frege::{
    Endpoint, Handler, HandlerMeaning, Method, Middleware, MiddlewareMeaning, Request, Resource,
    Response, Router,
};

/// Answers with a fixed tag and counts how often it ran.
#[derive(Clone)]
struct Tagged {
    tag: &'static str,
    calls: Arc<AtomicUsize>,
}

impl Tagged {
    fn new(tag: &'static str) -> Tagged {
        Tagged { tag, calls: Arc::new(AtomicUsize::new(0)) }
    }
}

impl HandlerMeaning for Tagged {}

impl Handler for Tagged {
    fn call(&self, _req: Request) -> Response {
        self.calls.fetch_add(1, Ordering::SeqCst);
        Response { status: 200, body: self.tag.to_string() }
    }
}

#[derive(Clone)]
struct NoMiddleware;

impl MiddlewareMeaning for NoMiddleware {}

impl Middleware for NoMiddleware {
    fn call<H: Handler>(&self, req: Request, next_handler: &H, next_rest: &[Self]) -> Response {
        frege::run_chain(next_handler, next_rest, req)
    }
}

/// Echoes every argument it is called with, so each adapter is
/// distinguishable.
#[derive(Clone)]
struct EchoResource;

impl Resource for EchoResource {
    fn get(&self, id: i32) -> Response {
        Response { status: 200, body: format!("G{}", id) }
    }
    fn create(&self, data: String) -> Response {
        Response { status: 201, body: format!("C{}", data) }
    }
    fn update(&self, id: i32, data: String) -> Response {
        Response { status: 200, body: format!("U{}:{}", id, data) }
    }
    fn delete(&self, id: i32) -> Response {
        Response { status: 200, body: format!("D{}", id) }
    }
}

fn request(method: Method, path: &str, body: Option<&str>) -> Request {
    Request { method, path: path.to_string(), body: body.map(|b| b.to_string()) }
}

fn plain_router(routes: &[(Method, &str, Tagged)]) -> Router<Tagged, NoMiddleware> {
    let mut router: Router<Tagged, NoMiddleware> = Router::new();
    for (method, path, handler) in routes {
        let mut b = match method {
            Method::Get => router.get(path, handler.clone()),
            Method::Post => router.post(path, handler.clone()),
            Method::Put => router.put(path, handler.clone()),
            Method::Delete => router.delete(path, handler.clone()),
        };
        b.register(&mut router);
    }
    router
}

fn resource_router() -> Router<Endpoint<Tagged, EchoResource>, NoMiddleware> {
    let mut router: Router<Endpoint<Tagged, EchoResource>, NoMiddleware> = Router::new();
    router.resource("/users", EchoResource);
    router
}

#[test]
fn dispatch_matches_method_and_path() {
    let router = plain_router(&[
        (Method::Get, "/a", Tagged::new("get-a")),
        (Method::Post, "/a", Tagged::new("post-a")),
        (Method::Get, "/b", Tagged::new("get-b")),
    ]);
    assert_eq!(router.handle(request(Method::Get, "/a", None)).body, "get-a");
    assert_eq!(router.handle(request(Method::Post, "/a", None)).body, "post-a");
    assert_eq!(router.handle(request(Method::Get, "/b", None)).body, "get-b");
}

#[test]
fn dispatch_first_registered_wins() {
    let router = plain_router(&[
        (Method::Get, "/a", Tagged::new("first")),
        (Method::Get, "/a", Tagged::new("second")),
    ]);
    assert_eq!(router.handle(request(Method::Get, "/a", None)).body, "first");
}

#[test]
fn dispatch_not_found_without_side_effects() {
    let h1 = Tagged::new("a");
    let h2 = Tagged::new("b");
    let router = plain_router(&[
        (Method::Get, "/a", h1.clone()),
        (Method::Post, "/b", h2.clone()),
    ]);

    let resp = router.handle(request(Method::Get, "/zzz", None));
    assert_eq!(resp.status, 404);
    assert_eq!(resp.body, "Not Found");

    // wrong method on a known path is just as much a miss
    let resp = router.handle(request(Method::Post, "/a", None));
    assert_eq!(resp.status, 404);
    assert_eq!(resp.body, "Not Found");

    assert_eq!(h1.calls.load(Ordering::SeqCst), 0);
    assert_eq!(h2.calls.load(Ordering::SeqCst), 0);
}

#[test]
fn dispatch_on_empty_router_is_not_found() {
    let router: Router<Tagged, NoMiddleware> = Router::new();
    let resp = router.handle(request(Method::Get, "/", None));
    assert_eq!(resp.status, 404);
    assert_eq!(resp.body, "Not Found");
}

#[test]
fn resource_expansion_scenarios() {
    let router = resource_router();
    assert_eq!(router.handle(request(Method::Get, "/users/1", None)).body, "G1");
    let created = router.handle(request(Method::Post, "/users", Some("x")));
    assert_eq!(created.status, 201);
    assert_eq!(created.body, "Cx");
    assert_eq!(router.handle(request(Method::Put, "/users/1", Some("y"))).body, "U1:y");
    assert_eq!(router.handle(request(Method::Delete, "/users/1", None)).body, "D1");
}

#[test]
fn resource_create_substitutes_empty_body() {
    let router = resource_router();
    let resp = router.handle(request(Method::Post, "/users", None));
    assert_eq!(resp.status, 201);
    assert_eq!(resp.body, "C");
    let resp = router.handle(request(Method::Put, "/users/7", None));
    assert_eq!(resp.body, "U7:");
}

#[test]
fn resource_id_parsing_accepts_signs_and_bounds() {
    let router = resource_router();
    assert_eq!(router.handle(request(Method::Get, "/users/42", None)).body, "G42");
    assert_eq!(router.handle(request(Method::Get, "/users/-7", None)).body, "G-7");
    assert_eq!(router.handle(request(Method::Get, "/users/+3", None)).body, "G3");
    assert_eq!(router.handle(request(Method::Get, "/users/2147483647", None)).body, "G2147483647");
    assert_eq!(
        router.handle(request(Method::Get, "/users/-2147483648", None)).body,
        "G-2147483648"
    );
}

#[test]
fn resource_malformed_id_is_bad_request() {
    let router = resource_router();
    for path in ["/users/abc", "/users/", "/users/12x", "/users/-", "/users/+",
        "/users/2147483648", "/users/-2147483649", "/users/99999999999999999999"] {
        let resp = router.handle(request(Method::Get, path, None));
        assert_eq!(resp.status, 400, "path {}", path);
        assert_eq!(resp.body, "Bad Request");
    }
}

#[test]
fn resource_id_routes_need_a_trailing_segment() {
    let router = resource_router();
    // "/users" itself only carries the POST route; a GET of it matches no
    // route at all
    let resp = router.handle(request(Method::Get, "/users", None));
    assert_eq!(resp.status, 404);
    // a deeper path does not match the single-segment pattern either
    let resp = router.handle(request(Method::Get, "/users/1/extra", None));
    assert_eq!(resp.status, 404);
}

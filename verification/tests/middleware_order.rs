use std::sync::{Arc, Mutex};

use frege::{
    Handler, HandlerMeaning, Method, Middleware, MiddlewareMeaning, Request, Response, Router,
};

type Log = Arc<Mutex<Vec<String>>>;

fn record(log: &Log, entry: &str) {
    log.lock().unwrap().push(entry.to_string());
}

/// A middleware probe: either forwards and logs entry and exit, or answers
/// by itself without ever running the rest of the chain.
#[derive(Clone)]
enum Probe {
    Log { name: &'static str, log: Log },
    Halt { status: u16, body: &'static str, log: Log },
}

impl MiddlewareMeaning for Probe {}

impl Middleware for Probe {
    fn call<H: Handler>(&self, req: Request, next_handler: &H, next_rest: &[Self]) -> Response {
        match self {
            Probe::Log { name, log } => {
                record(log, &format!("{}-in", name));
                let resp = frege::run_chain(next_handler, next_rest, req);
                record(log, &format!("{}-out", name));
                resp
            }
            Probe::Halt { status, body, log } => {
                record(log, "halt");
                Response { status: *status, body: body.to_string() }
            }
        }
    }
}

#[derive(Clone)]
struct Terminal {
    log: Log,
}

impl HandlerMeaning for Terminal {}

impl Handler for Terminal {
    fn call(&self, _req: Request) -> Response {
        record(&self.log, "handler");
        Response { status: 200, body: "H".to_string() }
    }
}

fn get_request(path: &str) -> Request {
    Request { method: Method::Get, path: path.to_string(), body: None }
}

fn router_with(log: &Log, mws: Vec<Probe>) -> Router<Terminal, Probe> {
    let mut router: Router<Terminal, Probe> = Router::new();
    let mut b = router.get("/x", Terminal { log: log.clone() }).middlewares(mws);
    b.register(&mut router);
    router
}

#[test]
fn middleware_runs_outermost_first() {
    let log: Log = Arc::new(Mutex::new(Vec::new()));
    let router = router_with(
        &log,
        vec![
            Probe::Log { name: "A", log: log.clone() },
            Probe::Log { name: "B", log: log.clone() },
        ],
    );
    let resp = router.handle(get_request("/x"));
    assert_eq!(resp.body, "H");
    assert_eq!(
        *log.lock().unwrap(),
        vec!["A-in", "B-in", "handler", "B-out", "A-out"]
    );
}

#[test]
fn middleware_short_circuits_the_chain() {
    let log: Log = Arc::new(Mutex::new(Vec::new()));
    let router = router_with(
        &log,
        vec![
            Probe::Halt { status: 403, body: "Denied", log: log.clone() },
            Probe::Log { name: "B", log: log.clone() },
        ],
    );
    let resp = router.handle(get_request("/x"));
    assert_eq!(resp.status, 403);
    assert_eq!(resp.body, "Denied");
    // neither the inner middleware nor the terminal handler ever ran
    assert_eq!(*log.lock().unwrap(), vec!["halt"]);
}

#[test]
fn middleware_single_source_is_accepted() {
    let log: Log = Arc::new(Mutex::new(Vec::new()));
    let router = router_with(&log, Vec::new());
    // a bare middleware, not wrapped in a vector, is normalized too
    let mut router2: Router<Terminal, Probe> = Router::new();
    let mut b = router2
        .get("/x", Terminal { log: log.clone() })
        .middlewares(Probe::Log { name: "only", log: log.clone() });
    b.register(&mut router2);

    router.handle(get_request("/x"));
    assert_eq!(*log.lock().unwrap(), vec!["handler"]);
    log.lock().unwrap().clear();

    router2.handle(get_request("/x"));
    assert_eq!(*log.lock().unwrap(), vec!["only-in", "handler", "only-out"]);
}

#[test]
fn middlewares_call_overwrites_earlier_set() {
    let log: Log = Arc::new(Mutex::new(Vec::new()));
    let mut router: Router<Terminal, Probe> = Router::new();
    let mut b = router
        .get("/x", Terminal { log: log.clone() })
        .middlewares(vec![Probe::Log { name: "old", log: log.clone() }])
        .middlewares(vec![Probe::Log { name: "new", log: log.clone() }]);
    b.register(&mut router);
    router.handle(get_request("/x"));
    assert_eq!(*log.lock().unwrap(), vec!["new-in", "handler", "new-out"]);
}

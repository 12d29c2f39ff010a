//! A request-dispatch core for an HTTP-serving library: a route table with
//! first-match-wins dispatch, a middleware composition protocol, and a
//! declarative CRUD-resource expander.  The transport layer stays outside:
//! this crate consumes a plain [`http::Request`] and produces a plain
//! [`http::Response`].
pub mod http;
pub mod middleware;
pub mod path;
pub mod resource;
pub mod router;

pub use http::{Method, Request, Response};
pub use middleware::{run_chain, IntoMiddlewares, Middleware, MiddlewareMeaning};
pub use resource::{Endpoint, Resource, ResourceAction, ResourceHandler};
pub use router::{Handler, HandlerMeaning, PathPattern, Route, RouteBuilder, Router};

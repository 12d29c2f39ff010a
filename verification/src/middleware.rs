//! The middleware composition protocol: a route's terminal handler together
//! with its ordered middleware list forms a chain, and dispatch runs the
//! chain from the first middleware inward.  The first middleware in the list
//! is the outermost: it runs first and decides whether the rest of the chain
//! (and ultimately the terminal handler) runs at all.
use vstd::prelude::*;

verus! {

use crate::http::{ReqView, RespView, Request, Response};
use crate::router::{Handler, HandlerMeaning};

/// The specification side of a middleware: its result as a function of the
/// request and of the meaning of the remainder of the chain (`next`).  The
/// default leaves the meaning arbitrary, so an implementation outside any
/// proof need only supply the executable side; an implementation whose
/// callers rely on its contract overrides it.
pub trait MiddlewareMeaning {
    open spec fn meaning(&self, req: ReqView, next: spec_fn(ReqView) -> RespView) -> RespView {
        vstd::pervasive::arbitrary()
    }
}

/// A wrapping step of a chain.  `call` receives the request together with the
/// remainder of the chain (a terminal handler and the middleware between it
/// and this step); the implementation decides whether and when to run the
/// remainder through [`run_chain`].
pub trait Middleware: MiddlewareMeaning + Sized {
    fn call<H: Handler>(&self, req: Request, next_handler: &H, next_rest: &[Self]) -> (r:
        Response)
        ensures
            r@ == self.meaning(req@, chain_meaning(*next_handler, next_rest@)),
    ;
}

/// The meaning of a bare terminal handler, as a chain of no middleware.
pub open spec fn handler_meaning<H: HandlerMeaning>(handler: H) -> spec_fn(ReqView) -> RespView {
    |req: ReqView| handler.meaning(req)
}

/// The meaning of one middleware wrapped around the rest of a chain.
pub open spec fn wrap_meaning<M: MiddlewareMeaning>(
    mw: M,
    next: spec_fn(ReqView) -> RespView,
) -> spec_fn(ReqView) -> RespView {
    |req: ReqView| mw.meaning(req, next)
}

/// The meaning of a whole chain: the middleware are folded around the
/// terminal handler in reverse, so the first of `mws` ends up outermost.
pub open spec fn chain_meaning<H: HandlerMeaning, M: MiddlewareMeaning>(
    handler: H,
    mws: Seq<M>,
) -> spec_fn(ReqView) -> RespView
    decreases mws.len(),
{
    if mws.len() == 0 {
        handler_meaning(handler)
    } else {
        wrap_meaning(mws[0], chain_meaning(handler, mws.drop_first()))
    }
}

/// Runs the chain made of `mws` wrapped around `handler` on `req`.
pub fn run_chain<H: Handler, M: Middleware>(handler: &H, mws: &[M], req: Request) -> (r: Response)
    ensures
        r@ == chain_meaning(*handler, mws@)(req@),
{
    if mws.len() == 0 {
        handler.call(req)
    } else {
        let first = vstd::slice::slice_index_get(mws, 0);
        let rest = vstd::slice::slice_subrange(mws, 1, mws.len());
        let r = first.call(req, handler, rest);
        proof {
            assert(mws@.drop_first() =~= rest@);
        }
        r
    }
}

/// Normalizing conversion from a middleware source to the ordered middleware
/// list a route stores: either a single middleware or an already-ordered
/// sequence of them.
pub trait IntoMiddlewares<M>: Sized {
    spec fn middleware_seq(&self) -> Seq<M>;

    fn into_middlewares(self) -> (v: Vec<M>)
        ensures
            v@ == self.middleware_seq(),
    ;
}

impl<M> IntoMiddlewares<M> for Vec<M> {
    open spec fn middleware_seq(&self) -> Seq<M> {
        self@
    }

    fn into_middlewares(self) -> (v: Vec<M>) {
        self
    }
}

impl<M: Middleware> IntoMiddlewares<M> for M {
    open spec fn middleware_seq(&self) -> Seq<M> {
        seq![*self]
    }

    fn into_middlewares(self) -> (v: Vec<M>) {
        let mut v = Vec::new();
        v.push(self);
        v
    }
}

/// Middleware ordering law: in a chain of `[a, b]`, `a` is outermost — its
/// `next` is `b` wrapped around the terminal handler, so `a` decides first,
/// then `b`, and `b`'s `next` is the terminal handler itself.
pub proof fn lemma_chain_order<H: HandlerMeaning, M: MiddlewareMeaning>(
    handler: H,
    a: M,
    b: M,
    req: ReqView,
)
    ensures
        chain_meaning(handler, seq![a, b])(req) == a.meaning(
            req,
            wrap_meaning(b, handler_meaning(handler)),
        ),
{
    let two = seq![a, b];
    assert(two.drop_first() =~= seq![b]);
    assert(seq![b].drop_first() =~= Seq::<M>::empty());
    assert(chain_meaning(handler, Seq::<M>::empty()) == handler_meaning(handler));
    assert(chain_meaning(handler, seq![b]) == wrap_meaning(b, handler_meaning(handler)));
    assert(chain_meaning(handler, two) == wrap_meaning(
        a,
        wrap_meaning(b, handler_meaning(handler)),
    ));
}

/// Short-circuiting law: a middleware whose result never depends on `next`
/// never runs the rest of the chain.  Whatever terminal handler stands at the
/// end, the chain's result is that middleware's own result.
pub proof fn lemma_short_circuit<H: HandlerMeaning, M: MiddlewareMeaning>(
    handler: H,
    other: H,
    mws: Seq<M>,
    req: ReqView,
    any_next: spec_fn(ReqView) -> RespView,
)
    requires
        mws.len() > 0,
        forall|r: ReqView, n1: spec_fn(ReqView) -> RespView, n2: spec_fn(ReqView) -> RespView|
            #![trigger mws[0].meaning(r, n1), mws[0].meaning(r, n2)]
            mws[0].meaning(r, n1) == mws[0].meaning(r, n2),
    ensures
        chain_meaning(handler, mws)(req) == mws[0].meaning(req, any_next),
        chain_meaning(handler, mws)(req) == chain_meaning(other, mws)(req),
{
    assert(chain_meaning(handler, mws)(req) == mws[0].meaning(
        req,
        chain_meaning(handler, mws.drop_first()),
    ));
    assert(chain_meaning(other, mws)(req) == mws[0].meaning(
        req,
        chain_meaning(other, mws.drop_first()),
    ));
}

} // verus!
